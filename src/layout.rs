//! Where the pipeline's files live: the shared circuit resources, each
//! subject's working directory, and the files inside it.
use vstd::prelude::*;
use crate::subject::{normalize_subject, normalized};

verus! {

/// `name` inside directory `dir`.
pub open spec fn joined(dir: Seq<char>, name: Seq<char>) -> Seq<char> {
    dir + "/"@ + name
}

pub fn join_path(dir: &str, name: &str) -> (r: String)
    ensures
        r@ == joined(dir@, name@),
{
    let mut r = dir.to_owned();
    r.append("/");
    r.append(name);
    r
}

/// The files that every subject's proof shares, built once per model version.
pub struct SharedResources {
    pub model: String,
    pub settings: String,
    pub compiled_circuit: String,
    pub proving_key: String,
    pub verification_key: String,
    pub srs: String,
}

/// The canonical paths of the shared resources inside `dir`.
pub open spec fn shared_resources_in(dir: Seq<char>, r: SharedResources) -> bool {
    &&& r.model@ == joined(dir, "credit_model.onnx"@)
    &&& r.settings@ == joined(dir, "settings.json"@)
    &&& r.compiled_circuit@ == joined(dir, "model.compiled"@)
    &&& r.proving_key@ == joined(dir, "pk.key"@)
    &&& r.verification_key@ == joined(dir, "vk.key"@)
    &&& r.srs@ == joined(dir, "kzg.srs"@)
}

/// The shared-resource descriptor of `dir`. It depends on `dir` alone, so
/// every subject of a run refers to the same files.
pub fn shared_resources(dir: &str) -> (r: SharedResources)
    ensures
        shared_resources_in(dir@, r),
{
    SharedResources {
        model: join_path(dir, "credit_model.onnx"),
        settings: join_path(dir, "settings.json"),
        compiled_circuit: join_path(dir, "model.compiled"),
        proving_key: join_path(dir, "pk.key"),
        verification_key: join_path(dir, "vk.key"),
        srs: join_path(dir, "kzg.srs"),
    }
}

/// The files of one subject's proof run, inside its own working directory.
pub struct SubjectFiles {
    pub dir: String,
    pub input: String,
    pub witness: String,
    pub proof: String,
    pub metadata: String,
    pub scaling_analysis: String,
    pub lookup: String,
    pub verifier_contract: String,
    pub calldata: String,
}

/// The paths of a subject's files: its working directory is named by its
/// canonical form, so two spellings of one subject share it.
pub open spec fn subject_files_in(work_dir: Seq<char>, subject: Seq<char>, r: SubjectFiles) -> bool {
    let d = joined(work_dir, normalized(subject));
    &&& r.dir@ == d
    &&& r.input@ == joined(d, "input.json"@)
    &&& r.witness@ == joined(d, "witness.json"@)
    &&& r.proof@ == joined(d, "proof.json"@)
    &&& r.metadata@ == joined(d, "metadata.json"@)
    &&& r.scaling_analysis@ == joined(d, "scaling_analysis.json"@)
    &&& r.lookup@ == joined(d, "lookup.json"@)
    &&& r.verifier_contract@ == joined(d, "verifier.sol"@)
    &&& r.calldata@ == joined(d, "calldata.json"@)
}

pub fn subject_files(work_dir: &str, subject: &str) -> (r: SubjectFiles)
    ensures
        subject_files_in(work_dir@, subject@, r),
{
    let key = normalize_subject(subject);
    let dir = join_path(work_dir, key.as_str());
    let d = dir.as_str();
    SubjectFiles {
        input: join_path(d, "input.json"),
        witness: join_path(d, "witness.json"),
        proof: join_path(d, "proof.json"),
        metadata: join_path(d, "metadata.json"),
        scaling_analysis: join_path(d, "scaling_analysis.json"),
        lookup: join_path(d, "lookup.json"),
        verifier_contract: join_path(d, "verifier.sol"),
        calldata: join_path(d, "calldata.json"),
        dir,
    }
}

/// The settings of one pipeline run, passed in rather than held in globals.
pub struct PipelineConfig {
    /// Holds the shared resources and one working directory per subject.
    pub work_dir: String,
    /// Holds one registry entry per canonical subject.
    pub registry_dir: String,
    pub model_version: String,
    /// The one subject whose verifier contract and call data are deployed.
    pub deploy_subject: String,
}

} // verus!
