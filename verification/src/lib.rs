//! Verified core of a subtitle pipeline: the transcript model, the batch and
//! job lifecycles, and the rules by which language-model answers are accepted.
pub mod contracts;
pub mod error;
pub mod execution_snapshot;
pub mod hash;
pub mod identity;
pub mod json;
pub mod llm;
pub mod paths;
pub mod ports;
pub mod subtitle;
pub mod text;
pub mod use_cases;
pub mod vad;
pub mod workflow;
