//! Language-model providers: requests, replies, limits and reliability.
pub mod application;
pub mod circuit;
pub mod json_parse;
pub mod openai;
pub mod probe;
pub mod prompt;
pub mod provider;
pub mod templates;
pub mod token;
