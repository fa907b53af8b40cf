//! Bookkeeping for a zero-knowledge credit-score proof pipeline: canonical
//! subject names, witness-input documents, decoding of the prover's public
//! output, registry entries, and the decisions that sequence the shared
//! circuit setup and the per-subject proof runs.

pub mod decoder;
pub mod digits;
pub mod input;
pub mod layout;
pub mod pipeline;
pub mod registry;
pub mod rescaled;
pub mod resources;
pub mod runner;
pub mod subject;
