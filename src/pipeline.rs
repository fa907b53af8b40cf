//! The decisions of one pipeline run: build the shared resources once, then
//! process each subject in turn, then deploy the designated subject's
//! verifier artifacts. The caller performs each action and reports back.
use vstd::prelude::*;
use crate::layout::{shared_resources_in, SharedResources};

verus! {

#[derive(Clone, Copy, Debug, PartialEq, Eq, Structural)]
pub enum Phase {
    SharedSetup,
    Subjects,
    Deploy,
    Finished,
    Aborted,
}

/// What the caller does next.
#[derive(Clone, Copy, Debug, PartialEq, Eq, Structural)]
pub enum RunAction {
    /// Bring the shared resources to ready.
    BuildShared,
    /// Build the input, prove, decode and record one subject; the designated
    /// subject also gets its verifier contract and call data.
    ProcessSubject { index: usize, verifier_contract: bool },
    /// Copy the designated subject's verifier artifacts to the deployment place.
    Deploy { index: usize },
    /// The run is over.
    Finish,
    /// The shared resources could not be built: nothing else may run.
    Abort,
}

/// How the last action ended.
#[derive(Clone, Copy, Debug, PartialEq, Eq, Structural)]
pub enum RunEvent {
    Succeeded,
    Failed,
}

/// The state of one run over `subjects` subjects.
#[derive(Clone, Copy, Debug, PartialEq, Eq, Structural)]
pub struct PipelineRun {
    pub subjects: usize,
    /// The position of the subject whose verifier artifacts are deployed.
    pub deploy_index: Option<usize>,
    pub phase: Phase,
    /// The next subject to process.
    pub next: usize,
    /// How many registry entries have been written.
    pub written: usize,
    /// Whether the designated subject's processing succeeded.
    pub deploy_ready: bool,
}

pub open spec fn run_wf(s: PipelineRun) -> bool {
    &&& s.next <= s.subjects
    &&& s.written <= s.next
    &&& s.phase == Phase::SharedSetup ==> s.next == 0
}

pub open spec fn action_of(s: PipelineRun) -> RunAction {
    match s.phase {
        Phase::SharedSetup => RunAction::BuildShared,
        Phase::Subjects => if s.next < s.subjects {
            RunAction::ProcessSubject {
                index: s.next,
                verifier_contract: s.deploy_index == Some(s.next),
            }
        } else {
            RunAction::Finish
        },
        Phase::Deploy => match s.deploy_index {
            Some(i) => RunAction::Deploy { index: i },
            None => RunAction::Finish,
        },
        Phase::Finished => RunAction::Finish,
        Phase::Aborted => RunAction::Abort,
    }
}

/// The phase after the last subject: deploy when the designated subject succeeded.
pub open spec fn after_subjects(s: PipelineRun) -> Phase {
    if s.deploy_ready && s.deploy_index.is_some() {
        Phase::Deploy
    } else {
        Phase::Finished
    }
}

/// The state after the caller reports how the current action ended.
pub open spec fn step(s: PipelineRun, e: RunEvent) -> PipelineRun {
    match s.phase {
        Phase::SharedSetup => if e == RunEvent::Succeeded {
            if s.subjects == 0 {
                PipelineRun { phase: Phase::Finished, ..s }
            } else {
                PipelineRun { phase: Phase::Subjects, ..s }
            }
        } else {
            PipelineRun { phase: Phase::Aborted, ..s }
        },
        Phase::Subjects => if s.next < s.subjects {
            let ok = e == RunEvent::Succeeded;
            let t = PipelineRun {
                next: (s.next + 1) as usize,
                written: if ok {
                    (s.written + 1) as usize
                } else {
                    s.written
                },
                deploy_ready: s.deploy_ready || (ok && s.deploy_index == Some(s.next)),
                ..s
            };
            if t.next == s.subjects {
                PipelineRun { phase: after_subjects(t), ..t }
            } else {
                t
            }
        } else {
            PipelineRun { phase: Phase::Finished, ..s }
        },
        Phase::Deploy => PipelineRun { phase: Phase::Finished, ..s },
        Phase::Finished => s,
        Phase::Aborted => s,
    }
}

/// The state after a sequence of reports.
pub open spec fn run_events(s: PipelineRun, events: Seq<RunEvent>) -> PipelineRun
    decreases events.len(),
{
    if events.len() == 0 {
        s
    } else {
        run_events(step(s, events[0]), events.subrange(1, events.len() as int))
    }
}

impl PipelineRun {
    /// A run over `subjects` subjects, the one at `deploy_index` designated
    /// for deployment.
    pub fn new(subjects: usize, deploy_index: Option<usize>) -> (r: PipelineRun)
        ensures
            run_wf(r),
            r.phase == Phase::SharedSetup,
            r.subjects == subjects,
            r.deploy_index == deploy_index,
            r.written == 0,
            !r.deploy_ready,
    {
        PipelineRun {
            subjects,
            deploy_index,
            phase: Phase::SharedSetup,
            next: 0,
            written: 0,
            deploy_ready: false,
        }
    }

    /// What to do next.
    pub fn next_action(&self) -> (r: RunAction)
        requires
            run_wf(*self),
        ensures
            r == action_of(*self),
    {
        match self.phase {
            Phase::SharedSetup => RunAction::BuildShared,
            Phase::Subjects => if self.next < self.subjects {
                RunAction::ProcessSubject {
                    index: self.next,
                    verifier_contract: self.deploy_index == Some(self.next),
                }
            } else {
                RunAction::Finish
            },
            Phase::Deploy => match self.deploy_index {
                Some(i) => RunAction::Deploy { index: i },
                None => RunAction::Finish,
            },
            Phase::Finished => RunAction::Finish,
            Phase::Aborted => RunAction::Abort,
        }
    }

    /// Records how the current action ended.
    pub fn on_event(&mut self, e: RunEvent)
        requires
            run_wf(*old(self)),
        ensures
            run_wf(*final(self)),
            *final(self) == step(*old(self), e),
    {
        match self.phase {
            Phase::SharedSetup => {
                if e == RunEvent::Succeeded {
                    if self.subjects == 0 {
                        self.phase = Phase::Finished;
                    } else {
                        self.phase = Phase::Subjects;
                    }
                } else {
                    self.phase = Phase::Aborted;
                }
            },
            Phase::Subjects => {
                if self.next < self.subjects {
                    let ok = e == RunEvent::Succeeded;
                    if ok {
                        self.written = self.written + 1;
                    }
                    self.deploy_ready = self.deploy_ready || (ok && self.deploy_index == Some(
                        self.next,
                    ));
                    self.next = self.next + 1;
                    if self.next == self.subjects {
                        self.phase = if self.deploy_ready && self.deploy_index.is_some() {
                            Phase::Deploy
                        } else {
                            Phase::Finished
                        };
                    }
                } else {
                    self.phase = Phase::Finished;
                }
            },
            Phase::Deploy => {
                self.phase = Phase::Finished;
            },
            Phase::Finished => {},
            Phase::Aborted => {},
        }
    }
}

/// Once aborted, a run stays aborted, writes nothing more and asks for nothing
/// but the abort.
proof fn lemma_aborted_stays(s: PipelineRun, events: Seq<RunEvent>)
    requires
        s.phase == Phase::Aborted,
    ensures
        run_events(s, events) == s,
    decreases events.len(),
{
    if events.len() > 0 {
        lemma_aborted_stays(step(s, events[0]), events.subrange(1, events.len() as int));
    }
}

/// A failed shared build aborts the run before any subject is processed: no
/// later report leads to a subject's proof or a registry entry.
pub proof fn lemma_shared_failure_aborts(s: PipelineRun, events: Seq<RunEvent>)
    requires
        s.phase == Phase::SharedSetup,
        s.written == 0,
    ensures
        run_events(step(s, RunEvent::Failed), events).phase == Phase::Aborted,
        run_events(step(s, RunEvent::Failed), events).written == 0,
        action_of(run_events(step(s, RunEvent::Failed), events)) == RunAction::Abort,
{
    lemma_aborted_stays(step(s, RunEvent::Failed), events);
}

/// Every subject of a run refers to the same shared files: the descriptor
/// is fixed by the shared directory.
pub proof fn lemma_shared_resources_unique(dir: Seq<char>, a: SharedResources, b: SharedResources)
    requires
        shared_resources_in(dir, a),
        shared_resources_in(dir, b),
    ensures
        a.model@ == b.model@,
        a.settings@ == b.settings@,
        a.compiled_circuit@ == b.compiled_circuit@,
        a.proving_key@ == b.proving_key@,
        a.verification_key@ == b.verification_key@,
        a.srs@ == b.srs@,
{
}

} // verus!
