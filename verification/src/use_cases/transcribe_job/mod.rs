//! One media file on its way through the stages.
pub mod asr;
pub mod command;
pub mod commit;
pub mod long_audio;
pub mod media;
pub mod service;
