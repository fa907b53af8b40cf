//! The shared-resource cache: which build stages a run needs, and the
//! decisions that take the cache from absent, through building, to ready.
use vstd::prelude::*;

verus! {

/// One step of building the shared resources, in the order they run.
#[derive(Clone, Copy, Debug, PartialEq, Eq, Structural)]
pub enum BuildStage {
    MaterializeModel,
    GenerateSettings,
    WriteCalibrationInput,
    CalibrateSettings,
    CompileCircuit,
    FetchSrs,
    SetupKeys,
}

/// Which shared resource files are on disk.
#[derive(Clone, Copy, Debug, PartialEq, Eq, Structural)]
pub struct ResourcePresence {
    pub model: bool,
    pub settings: bool,
    pub compiled_circuit: bool,
    pub proving_key: bool,
    pub verification_key: bool,
    pub srs: bool,
}

pub open spec fn all_present(p: ResourcePresence) -> bool {
    p.model && p.settings && p.compiled_circuit && p.proving_key && p.verification_key && p.srs
}

/// The stages that bring the shared resources to ready: none when every file
/// is present; else the model only if it is missing, the settings, their
/// calibration and the circuit, the reference string only if it is missing,
/// and the keys.
pub open spec fn build_plan(p: ResourcePresence) -> Seq<BuildStage> {
    if all_present(p) {
        Seq::empty()
    } else {
        (if p.model {
            Seq::empty()
        } else {
            seq![BuildStage::MaterializeModel]
        }) + seq![
            BuildStage::GenerateSettings,
            BuildStage::WriteCalibrationInput,
            BuildStage::CalibrateSettings,
            BuildStage::CompileCircuit,
        ] + (if p.srs {
            Seq::empty()
        } else {
            seq![BuildStage::FetchSrs]
        }) + seq![BuildStage::SetupKeys]
    }
}

/// The files on disk once a stage has succeeded.
pub open spec fn after_stage(p: ResourcePresence, s: BuildStage) -> ResourcePresence {
    match s {
        BuildStage::MaterializeModel => ResourcePresence { model: true, ..p },
        BuildStage::GenerateSettings => ResourcePresence { settings: true, ..p },
        BuildStage::WriteCalibrationInput => p,
        BuildStage::CalibrateSettings => ResourcePresence { settings: true, ..p },
        BuildStage::CompileCircuit => ResourcePresence { compiled_circuit: true, ..p },
        BuildStage::FetchSrs => ResourcePresence { srs: true, ..p },
        BuildStage::SetupKeys => ResourcePresence {
            proving_key: true,
            verification_key: true,
            ..p
        },
    }
}

/// The files on disk once the stages have succeeded, in order.
pub open spec fn after_stages(p: ResourcePresence, stages: Seq<BuildStage>) -> ResourcePresence
    decreases stages.len(),
{
    if stages.len() == 0 {
        p
    } else {
        after_stages(after_stage(p, stages[0]), stages.subrange(1, stages.len() as int))
    }
}

/// Computes the stages that bring the shared resources to ready.
pub fn plan_shared_build(p: ResourcePresence) -> (r: Vec<BuildStage>)
    ensures
        r@ == build_plan(p),
{
    let mut r: Vec<BuildStage> = Vec::new();
    if p.model && p.settings && p.compiled_circuit && p.proving_key && p.verification_key
        && p.srs {
        return r;
    }
    if !p.model {
        r.push(BuildStage::MaterializeModel);
    }
    r.push(BuildStage::GenerateSettings);
    r.push(BuildStage::WriteCalibrationInput);
    r.push(BuildStage::CalibrateSettings);
    r.push(BuildStage::CompileCircuit);
    if !p.srs {
        r.push(BuildStage::FetchSrs);
    }
    r.push(BuildStage::SetupKeys);
    assert(r@ =~= build_plan(p));
    r
}

proof fn lemma_after_stages_concat(p: ResourcePresence, a: Seq<BuildStage>, b: Seq<BuildStage>)
    ensures
        after_stages(p, a + b) == after_stages(after_stages(p, a), b),
    decreases a.len(),
{
    if a.len() > 0 {
        assert((a + b).subrange(1, (a + b).len() as int) =~= a.subrange(1, a.len() as int) + b);
        lemma_after_stages_concat(after_stage(p, a[0]), a.subrange(1, a.len() as int), b);
    } else {
        assert(a + b =~= b);
    }
}

/// Once the planned stages have succeeded every shared file is present, so
/// building again plans no stage: a second build makes no external call.
pub proof fn lemma_build_idempotent(p: ResourcePresence)
    ensures
        all_present(after_stages(p, build_plan(p))),
        build_plan(after_stages(p, build_plan(p))) == Seq::<BuildStage>::empty(),
{
    if !all_present(p) {
        let m: Seq<BuildStage> = if p.model {
            Seq::empty()
        } else {
            seq![BuildStage::MaterializeModel]
        };
        let mid = seq![
            BuildStage::GenerateSettings,
            BuildStage::WriteCalibrationInput,
            BuildStage::CalibrateSettings,
            BuildStage::CompileCircuit,
        ];
        let s: Seq<BuildStage> = if p.srs {
            Seq::empty()
        } else {
            seq![BuildStage::FetchSrs]
        };
        let k = seq![BuildStage::SetupKeys];
        lemma_after_stages_concat(p, m + mid + s, k);
        lemma_after_stages_concat(p, m + mid, s);
        lemma_after_stages_concat(p, m, mid);
        let p1 = after_stages(p, m);
        assert(p1.model && p1.srs == p.srs) by {
            reveal_with_fuel(after_stages, 2);
            if !p.model {
                assert(m.subrange(1, 1) =~= Seq::<BuildStage>::empty());
            }
        }
        let p2 = after_stages(p1, mid);
        assert(p2.model && p2.settings && p2.compiled_circuit && p2.srs == p.srs) by {
            reveal_with_fuel(after_stages, 5);
            assert(mid.subrange(1, 4) =~= seq![
                BuildStage::WriteCalibrationInput,
                BuildStage::CalibrateSettings,
                BuildStage::CompileCircuit,
            ]);
            assert(mid.subrange(1, 4).subrange(1, 3) =~= seq![
                BuildStage::CalibrateSettings,
                BuildStage::CompileCircuit,
            ]);
            assert(mid.subrange(1, 4).subrange(1, 3).subrange(1, 2) =~= seq![
                BuildStage::CompileCircuit,
            ]);
            assert(seq![BuildStage::CompileCircuit].subrange(1, 1) =~= Seq::<BuildStage>::empty());
        }
        let p3 = after_stages(p2, s);
        assert(p3.model && p3.settings && p3.compiled_circuit && p3.srs) by {
            reveal_with_fuel(after_stages, 2);
            if !p.srs {
                assert(s.subrange(1, 1) =~= Seq::<BuildStage>::empty());
            }
        }
        assert(k.subrange(1, 1) =~= Seq::<BuildStage>::empty());
        assert(all_present(after_stages(p3, k))) by {
            reveal_with_fuel(after_stages, 2);
        }
        assert(build_plan(p) == m + mid + s + k);
    }
}

/// Where the shared build stands.
#[derive(Clone, Copy, Debug, PartialEq, Eq, Structural)]
pub enum CacheAction {
    /// Run this stage next, and report whether it succeeded.
    Run(BuildStage),
    /// Every shared resource is in place.
    Ready,
    /// This stage failed: the run must stop before any subject is proved.
    Abort(BuildStage),
}

/// The state of one shared build: its plan, how many stages have succeeded,
/// and the stage that failed, if one did.
pub struct SharedBuild {
    pub plan: Vec<BuildStage>,
    pub done: usize,
    pub failed: Option<BuildStage>,
}

impl SharedBuild {
    pub open spec fn wf(&self) -> bool {
        &&& self.done <= self.plan@.len()
        &&& self.failed.is_some() ==> self.done < self.plan@.len() && self.failed == Some(
            self.plan@[self.done as int],
        )
    }

    pub open spec fn action(&self) -> CacheAction {
        if let Some(s) = self.failed {
            CacheAction::Abort(s)
        } else if self.done < self.plan@.len() {
            CacheAction::Run(self.plan@[self.done as int])
        } else {
            CacheAction::Ready
        }
    }

    /// Starts a build from what is on disk.
    pub fn start(p: ResourcePresence) -> (r: SharedBuild)
        ensures
            r.wf(),
            r.plan@ == build_plan(p),
            r.done == 0,
            r.failed.is_none(),
            all_present(p) ==> r.action() == CacheAction::Ready,
    {
        SharedBuild { plan: plan_shared_build(p), done: 0, failed: None }
    }

    /// What to do next.
    pub fn next_action(&self) -> (r: CacheAction)
        requires
            self.wf(),
        ensures
            r == self.action(),
    {
        if let Some(s) = self.failed {
            CacheAction::Abort(s)
        } else if self.done < self.plan.len() {
            CacheAction::Run(self.plan[self.done])
        } else {
            CacheAction::Ready
        }
    }

    /// Records the outcome of the stage that `next_action` asked for.
    pub fn record(&mut self, succeeded: bool)
        requires
            old(self).wf(),
            old(self).action() is Run,
        ensures
            final(self).wf(),
            final(self).plan@ == old(self).plan@,
            succeeded ==> final(self).done == old(self).done + 1 && final(self).failed.is_none(),
            !succeeded ==> final(self).done == old(self).done && final(self).failed == Some(
                old(self).plan@[old(self).done as int],
            ),
    {
        let n = self.plan.len();
        assert(self.done < n);
        if succeeded {
            self.done = self.done + 1;
        } else {
            self.failed = Some(self.plan[self.done]);
        }
    }
}

} // verus!
