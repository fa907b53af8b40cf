//! The external invocations of a run, as argument vectors: the stages that
//! build the shared resources and the steps that prove one subject.
use vstd::prelude::*;
use crate::input::{append_comma_separated, comma_separated, feature_views};
use crate::layout::{SharedResources, SubjectFiles};
use crate::resources::BuildStage;

verus! {

/// The program an invocation runs.
#[derive(Clone, Copy, Debug, PartialEq, Eq, Structural)]
pub enum Program {
    /// The proving toolchain's command-line binary.
    Prover,
    /// The script that turns the trained model into the prover's model format.
    ModelScript,
}

/// One external call: a program and its arguments, passed as they are.
pub struct Invocation {
    pub program: Program,
    pub args: Vec<String>,
}

pub open spec fn arg_views(args: Seq<String>) -> Seq<Seq<char>> {
    args.map_values(|a: String| a@)
}

/// What the model script needs: where to write, and the representative
/// subject and features that the shared model is made from.
pub struct ModelRequest {
    pub shared_dir: String,
    pub subject: String,
    pub features: Vec<String>,
}

/// The features as a list document: `[f1,f2,...]`.
pub open spec fn feature_list(fs: Seq<Seq<char>>) -> Seq<char> {
    "["@ + comma_separated(fs) + "]"@
}

/// The invocation that carries out a shared build stage (none for the stage
/// that writes the calibration input, which calls nothing outside).
pub open spec fn stage_command(
    stage: BuildStage,
    r: SharedResources,
    m: ModelRequest,
    calibration_input: Seq<char>,
) -> Option<(Program, Seq<Seq<char>>)> {
    match stage {
        BuildStage::MaterializeModel => Some(
            (
                Program::ModelScript,
                seq![
                    "./script/create_model.py"@,
                    m.shared_dir@,
                    m.subject@,
                    feature_list(feature_views(m.features@)),
                    "1"@,
                ],
            ),
        ),
        BuildStage::GenerateSettings => Some(
            (Program::Prover, seq!["gen-settings"@, "-M"@, r.model@, "-O"@, r.settings@]),
        ),
        BuildStage::WriteCalibrationInput => None,
        BuildStage::CalibrateSettings => Some(
            (
                Program::Prover,
                seq![
                    "calibrate-settings"@,
                    "-M"@,
                    r.model@,
                    "-D"@,
                    calibration_input,
                    "-O"@,
                    r.settings@,
                ],
            ),
        ),
        BuildStage::CompileCircuit => Some(
            (
                Program::Prover,
                seq![
                    "compile-circuit"@,
                    "-M"@,
                    r.model@,
                    "--compiled-circuit"@,
                    r.compiled_circuit@,
                    "-S"@,
                    r.settings@,
                ],
            ),
        ),
        BuildStage::FetchSrs => Some(
            (
                Program::Prover,
                seq!["get-srs"@, "--settings-path"@, r.settings@, "--srs-path"@, r.srs@],
            ),
        ),
        BuildStage::SetupKeys => Some(
            (
                Program::Prover,
                seq![
                    "setup"@,
                    "-M"@,
                    r.compiled_circuit@,
                    "--pk-path"@,
                    r.proving_key@,
                    "--vk-path"@,
                    r.verification_key@,
                    "--srs-path"@,
                    r.srs@,
                ],
            ),
        ),
    }
}

pub open spec fn invocation_is(inv: Option<Invocation>, cmd: Option<(Program, Seq<Seq<char>>)>) -> bool {
    match inv {
        Some(i) => cmd == Some((i.program, arg_views(i.args@))),
        None => cmd.is_none(),
    }
}

/// Builds the invocation of a shared build stage.
pub fn stage_invocation(
    stage: BuildStage,
    r: &SharedResources,
    m: &ModelRequest,
    calibration_input: &str,
) -> (inv: Option<Invocation>)
    ensures
        invocation_is(inv, stage_command(stage, *r, *m, calibration_input@)),
{
    let (program, args) = match stage {
        BuildStage::MaterializeModel => {
            let mut list = "[".to_owned();
            append_comma_separated(&mut list, &m.features);
            list.append("]");
            (
                Program::ModelScript,
                vec![
                    "./script/create_model.py".to_owned(),
                    m.shared_dir.clone(),
                    m.subject.clone(),
                    list,
                    "1".to_owned(),
                ],
            )
        },
        BuildStage::GenerateSettings => (
            Program::Prover,
            vec![
                "gen-settings".to_owned(),
                "-M".to_owned(),
                r.model.clone(),
                "-O".to_owned(),
                r.settings.clone(),
            ],
        ),
        BuildStage::WriteCalibrationInput => {
            return None;
        },
        BuildStage::CalibrateSettings => (
            Program::Prover,
            vec![
                "calibrate-settings".to_owned(),
                "-M".to_owned(),
                r.model.clone(),
                "-D".to_owned(),
                calibration_input.to_owned(),
                "-O".to_owned(),
                r.settings.clone(),
            ],
        ),
        BuildStage::CompileCircuit => (
            Program::Prover,
            vec![
                "compile-circuit".to_owned(),
                "-M".to_owned(),
                r.model.clone(),
                "--compiled-circuit".to_owned(),
                r.compiled_circuit.clone(),
                "-S".to_owned(),
                r.settings.clone(),
            ],
        ),
        BuildStage::FetchSrs => (
            Program::Prover,
            vec![
                "get-srs".to_owned(),
                "--settings-path".to_owned(),
                r.settings.clone(),
                "--srs-path".to_owned(),
                r.srs.clone(),
            ],
        ),
        BuildStage::SetupKeys => (
            Program::Prover,
            vec![
                "setup".to_owned(),
                "-M".to_owned(),
                r.compiled_circuit.clone(),
                "--pk-path".to_owned(),
                r.proving_key.clone(),
                "--vk-path".to_owned(),
                r.verification_key.clone(),
                "--srs-path".to_owned(),
                r.srs.clone(),
            ],
        ),
    };
    let ghost cmd = stage_command(stage, *r, *m, calibration_input@);
    assert(arg_views(args@) =~= cmd.unwrap().1);
    Some(Invocation { program, args })
}

/// One step of proving a subject, in the order they run, each needing the one
/// before it to succeed.
#[derive(Clone, Copy, Debug, PartialEq, Eq, Structural)]
pub enum ProofStep {
    GenerateWitness,
    Prove,
    Verify,
    CreateVerifierContract,
    EncodeCalldata,
}

/// The steps of one subject's proof: witness, proof, local verification, and
/// for the deployed subject the verifier contract and its call data.
pub open spec fn proof_plan(want_verifier_contract: bool) -> Seq<ProofStep> {
    if want_verifier_contract {
        seq![
            ProofStep::GenerateWitness,
            ProofStep::Prove,
            ProofStep::Verify,
            ProofStep::CreateVerifierContract,
            ProofStep::EncodeCalldata,
        ]
    } else {
        seq![ProofStep::GenerateWitness, ProofStep::Prove, ProofStep::Verify]
    }
}

pub fn proof_steps(want_verifier_contract: bool) -> (r: Vec<ProofStep>)
    ensures
        r@ == proof_plan(want_verifier_contract),
{
    let mut r = vec![ProofStep::GenerateWitness, ProofStep::Prove, ProofStep::Verify];
    if want_verifier_contract {
        r.push(ProofStep::CreateVerifierContract);
        r.push(ProofStep::EncodeCalldata);
    }
    assert(r@ =~= proof_plan(want_verifier_contract));
    r
}

/// The prover's arguments for a proof step: the shared resources by their
/// canonical paths, the subject's own files inside its working directory.
pub open spec fn step_args(step: ProofStep, r: SharedResources, f: SubjectFiles) -> Seq<Seq<char>> {
    match step {
        ProofStep::GenerateWitness => seq![
            "gen-witness"@,
            "-D"@,
            f.input@,
            "-M"@,
            r.compiled_circuit@,
            "-O"@,
            f.witness@,
        ],
        ProofStep::Prove => seq![
            "prove"@,
            "--witness"@,
            f.witness@,
            "--proof-path"@,
            f.proof@,
            "--pk-path"@,
            r.proving_key@,
            "--compiled-circuit"@,
            r.compiled_circuit@,
            "--srs-path"@,
            r.srs@,
        ],
        ProofStep::Verify => seq![
            "verify"@,
            "--proof-path"@,
            f.proof@,
            "--settings-path"@,
            r.settings@,
            "--vk-path"@,
            r.verification_key@,
            "--srs-path"@,
            r.srs@,
        ],
        ProofStep::CreateVerifierContract => seq![
            "create-evm-verifier"@,
            "--vk-path"@,
            r.verification_key@,
            "--settings-path"@,
            r.settings@,
            "--sol-code-path"@,
            f.verifier_contract@,
            "--srs-path"@,
            r.srs@,
        ],
        ProofStep::EncodeCalldata => seq![
            "encode-evm-calldata"@,
            "--proof-path"@,
            f.proof@,
            "--calldata-path"@,
            f.calldata@,
        ],
    }
}

/// Builds the prover invocation of a proof step.
pub fn step_invocation(step: ProofStep, r: &SharedResources, f: &SubjectFiles) -> (inv:
    Invocation)
    ensures
        inv.program == Program::Prover,
        arg_views(inv.args@) == step_args(step, *r, *f),
{
    let args = match step {
        ProofStep::GenerateWitness => vec![
            "gen-witness".to_owned(),
            "-D".to_owned(),
            f.input.clone(),
            "-M".to_owned(),
            r.compiled_circuit.clone(),
            "-O".to_owned(),
            f.witness.clone(),
        ],
        ProofStep::Prove => vec![
            "prove".to_owned(),
            "--witness".to_owned(),
            f.witness.clone(),
            "--proof-path".to_owned(),
            f.proof.clone(),
            "--pk-path".to_owned(),
            r.proving_key.clone(),
            "--compiled-circuit".to_owned(),
            r.compiled_circuit.clone(),
            "--srs-path".to_owned(),
            r.srs.clone(),
        ],
        ProofStep::Verify => vec![
            "verify".to_owned(),
            "--proof-path".to_owned(),
            f.proof.clone(),
            "--settings-path".to_owned(),
            r.settings.clone(),
            "--vk-path".to_owned(),
            r.verification_key.clone(),
            "--srs-path".to_owned(),
            r.srs.clone(),
        ],
        ProofStep::CreateVerifierContract => vec![
            "create-evm-verifier".to_owned(),
            "--vk-path".to_owned(),
            r.verification_key.clone(),
            "--settings-path".to_owned(),
            r.settings.clone(),
            "--sol-code-path".to_owned(),
            f.verifier_contract.clone(),
            "--srs-path".to_owned(),
            r.srs.clone(),
        ],
        ProofStep::EncodeCalldata => vec![
            "encode-evm-calldata".to_owned(),
            "--proof-path".to_owned(),
            f.proof.clone(),
            "--calldata-path".to_owned(),
            f.calldata.clone(),
        ],
    };
    assert(arg_views(args@) =~= step_args(step, *r, *f));
    Invocation { program: Program::Prover, args }
}

/// Where one subject's proof run stands.
#[derive(Clone, Copy, Debug, PartialEq, Eq, Structural)]
pub enum StepAction {
    /// Run this step next, and report whether it succeeded.
    Run(ProofStep),
    /// Every step succeeded.
    Done,
    /// This step failed: the subject's run is abandoned, without a retry.
    Failed(ProofStep),
}

/// The state of one subject's proof run: its steps, how many have succeeded,
/// and the step that failed, if one did.
pub struct ProofRun {
    pub steps: Vec<ProofStep>,
    pub done: usize,
    pub failed: Option<ProofStep>,
}

impl ProofRun {
    pub open spec fn wf(&self) -> bool {
        &&& self.done <= self.steps@.len()
        &&& self.failed.is_some() ==> self.done < self.steps@.len() && self.failed == Some(
            self.steps@[self.done as int],
        )
    }

    pub open spec fn action(&self) -> StepAction {
        if let Some(s) = self.failed {
            StepAction::Failed(s)
        } else if self.done < self.steps@.len() {
            StepAction::Run(self.steps@[self.done as int])
        } else {
            StepAction::Done
        }
    }

    /// Starts a subject's run over the steps of `proof_plan`.
    pub fn start(want_verifier_contract: bool) -> (r: ProofRun)
        ensures
            r.wf(),
            r.steps@ == proof_plan(want_verifier_contract),
            r.done == 0,
            r.failed.is_none(),
    {
        ProofRun { steps: proof_steps(want_verifier_contract), done: 0, failed: None }
    }

    /// What to do next.
    pub fn next_action(&self) -> (r: StepAction)
        requires
            self.wf(),
        ensures
            r == self.action(),
    {
        if let Some(s) = self.failed {
            StepAction::Failed(s)
        } else if self.done < self.steps.len() {
            StepAction::Run(self.steps[self.done])
        } else {
            StepAction::Done
        }
    }

    /// Records the outcome of the step that `next_action` asked for.
    pub fn record(&mut self, succeeded: bool)
        requires
            old(self).wf(),
            old(self).action() is Run,
        ensures
            final(self).wf(),
            final(self).steps@ == old(self).steps@,
            succeeded ==> final(self).done == old(self).done + 1 && final(self).failed.is_none(),
            !succeeded ==> final(self).done == old(self).done && final(self).failed == Some(
                old(self).steps@[old(self).done as int],
            ),
    {
        let n = self.steps.len();
        assert(self.done < n);
        if succeeded {
            self.done = self.done + 1;
        } else {
            self.failed = Some(self.steps[self.done]);
        }
    }
}

} // verus!
