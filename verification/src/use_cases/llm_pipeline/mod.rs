//! The stages that a language model works on: packing, validation, retries,
//! isolation of bad items and protection against stale results.
pub mod agent;
pub mod attempts;
pub mod batch_run;
pub mod documents;
pub mod durable;
pub mod isolation;
pub mod judge;
pub mod packing;
pub mod plan;
pub mod requests;
pub mod retry;
pub mod similarity;
pub mod split;
pub mod stages;
pub mod texts;
pub mod types;
pub mod validation;
