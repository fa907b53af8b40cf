use proof_pipeline::input::{build_input, is_valid_feature, InputError};
use proof_pipeline::layout::{join_path, shared_resources, subject_files};
use proof_pipeline::pipeline::{PipelineRun, Phase, RunAction, RunEvent};
use proof_pipeline::resources::{plan_shared_build, BuildStage, CacheAction, ResourcePresence, SharedBuild};
use proof_pipeline::runner::{
    proof_steps, stage_invocation, step_invocation, ModelRequest, ProofRun, ProofStep, Program,
    StepAction,
};

fn features(v: &[&str]) -> Vec<String> {
    v.iter().map(|s| s.to_string()).collect()
}

fn presence(all: bool) -> ResourcePresence {
    ResourcePresence {
        model: all,
        settings: all,
        compiled_circuit: all,
        proving_key: all,
        verification_key: all,
        srs: all,
    }
}

#[test]
fn witness_input_document() {
    let doc = build_input(&features(&["0.1", "0.2", "0.3"])).unwrap();
    assert_eq!(
        doc,
        "{\"input_data\":[[0.1,0.2,0.3]],\"input_shapes\":[[3]],\"output_data\":[[0.0]]}"
    );
}

#[test]
fn witness_input_deterministic() {
    let f = features(&["-1.5", "0", "12.25"]);
    assert_eq!(build_input(&f), build_input(&f.clone()));
}

#[test]
fn witness_input_errors() {
    assert_eq!(build_input(&Vec::new()), Err(InputError::EmptyFeatures));
    assert_eq!(build_input(&features(&["0.1", "NaN", "inf"])), Err(InputError::InvalidFeature(1)));
    assert_eq!(build_input(&features(&["inf"])), Err(InputError::InvalidFeature(0)));
    assert!(is_valid_feature("-0.25"));
    assert!(!is_valid_feature("-"));
    assert!(!is_valid_feature("1e5"));
}

#[test]
fn shared_build_plan_when_absent() {
    assert_eq!(
        plan_shared_build(presence(false)),
        vec![
            BuildStage::MaterializeModel,
            BuildStage::GenerateSettings,
            BuildStage::WriteCalibrationInput,
            BuildStage::CalibrateSettings,
            BuildStage::CompileCircuit,
            BuildStage::FetchSrs,
            BuildStage::SetupKeys,
        ]
    );
    let mut p = presence(false);
    p.model = true;
    p.srs = true;
    assert_eq!(plan_shared_build(p).len(), 5);
    assert!(plan_shared_build(presence(true)).is_empty());
}

#[test]
fn shared_build_twice_calls_once() {
    let mut b = SharedBuild::start(presence(false));
    let mut runs = 0;
    while let CacheAction::Run(_) = b.next_action() {
        runs += 1;
        b.record(true);
    }
    assert_eq!(b.next_action(), CacheAction::Ready);
    assert_eq!(runs, 7);
    let again = SharedBuild::start(presence(true));
    assert_eq!(again.next_action(), CacheAction::Ready);
    assert_eq!(shared_resources("work").model, shared_resources("work").model);
}

#[test]
fn shared_build_failure_names_stage() {
    let mut b = SharedBuild::start(presence(false));
    b.record(true);
    assert_eq!(b.next_action(), CacheAction::Run(BuildStage::GenerateSettings));
    b.record(false);
    assert_eq!(b.next_action(), CacheAction::Abort(BuildStage::GenerateSettings));
}

#[test]
fn scenario_c_shared_failure_aborts_before_subjects() {
    let mut run = PipelineRun::new(3, Some(1));
    assert_eq!(run.next_action(), RunAction::BuildShared);
    run.on_event(RunEvent::Failed);
    assert_eq!(run.phase, Phase::Aborted);
    assert_eq!(run.next_action(), RunAction::Abort);
    run.on_event(RunEvent::Succeeded);
    assert_eq!(run.next_action(), RunAction::Abort);
    assert_eq!(run.written, 0);
}

#[test]
fn run_isolates_subject_failures_and_deploys_designated() {
    let mut run = PipelineRun::new(3, Some(1));
    run.on_event(RunEvent::Succeeded);
    assert_eq!(run.next_action(), RunAction::ProcessSubject { index: 0, verifier_contract: false });
    run.on_event(RunEvent::Failed);
    assert_eq!(run.next_action(), RunAction::ProcessSubject { index: 1, verifier_contract: true });
    run.on_event(RunEvent::Succeeded);
    assert_eq!(run.next_action(), RunAction::ProcessSubject { index: 2, verifier_contract: false });
    run.on_event(RunEvent::Succeeded);
    assert_eq!(run.written, 2);
    assert_eq!(run.next_action(), RunAction::Deploy { index: 1 });
    run.on_event(RunEvent::Succeeded);
    assert_eq!(run.next_action(), RunAction::Finish);
}

#[test]
fn run_skips_deploy_when_designated_failed() {
    let mut run = PipelineRun::new(1, Some(0));
    run.on_event(RunEvent::Succeeded);
    run.on_event(RunEvent::Failed);
    assert_eq!(run.next_action(), RunAction::Finish);
    assert_eq!(run.written, 0);
}

#[test]
fn scenario_b_subjects_share_resources() {
    let shared = shared_resources("proof_generation");
    let a = subject_files("proof_generation", "0x2222222222222222222222222222222222222222");
    let b = subject_files("proof_generation", "0x4444444444444444444444444444444444444444");
    let pa = step_invocation(ProofStep::Prove, &shared, &a);
    let pb = step_invocation(ProofStep::Prove, &shared, &b);
    assert_eq!(pa.program, Program::Prover);
    assert_eq!(pa.args[6], pb.args[6]);
    assert_eq!(pa.args[6], "proof_generation/pk.key");
    assert_eq!(pa.args[8], "proof_generation/model.compiled");
    assert_ne!(pa.args[2], pb.args[2]);
    assert_eq!(a.dir, "proof_generation/2222222222222222222222222222222222222222");
    assert_eq!(a.proof, join_path(&a.dir, "proof.json"));
}

#[test]
fn stage_invocations() {
    let shared = shared_resources("pg");
    let m = ModelRequest {
        shared_dir: "pg".to_string(),
        subject: "0x2222".to_string(),
        features: features(&["0.1", "0.2"]),
    };
    let model = stage_invocation(BuildStage::MaterializeModel, &shared, &m, "pg/input.json").unwrap();
    assert_eq!(model.program, Program::ModelScript);
    assert_eq!(model.args, vec!["./script/create_model.py", "pg", "0x2222", "[0.1,0.2]", "1"]);
    let gen = stage_invocation(BuildStage::GenerateSettings, &shared, &m, "pg/input.json").unwrap();
    assert_eq!(gen.args, vec!["gen-settings", "-M", "pg/credit_model.onnx", "-O", "pg/settings.json"]);
    let cal = stage_invocation(BuildStage::CalibrateSettings, &shared, &m, "pg/input.json").unwrap();
    assert_eq!(cal.args[4], "pg/input.json");
    assert!(stage_invocation(BuildStage::WriteCalibrationInput, &shared, &m, "x").is_none());
}

#[test]
fn proof_step_order() {
    assert_eq!(proof_steps(false), vec![ProofStep::GenerateWitness, ProofStep::Prove, ProofStep::Verify]);
    let with_contract = proof_steps(true);
    assert_eq!(with_contract.len(), 5);
    assert_eq!(with_contract[3], ProofStep::CreateVerifierContract);
    assert_eq!(with_contract[4], ProofStep::EncodeCalldata);
}

#[test]
fn proof_run_stops_at_first_failure() {
    let mut run = ProofRun::start(true);
    assert_eq!(run.next_action(), StepAction::Run(ProofStep::GenerateWitness));
    run.record(true);
    assert_eq!(run.next_action(), StepAction::Run(ProofStep::Prove));
    run.record(false);
    assert_eq!(run.next_action(), StepAction::Failed(ProofStep::Prove));
    let mut ok = ProofRun::start(false);
    for _ in 0..3 {
        assert!(matches!(ok.next_action(), StepAction::Run(_)));
        ok.record(true);
    }
    assert_eq!(ok.next_action(), StepAction::Done);
}
