//! Decisions of the application's use cases, taken on plain values.
pub mod cancel_job;
pub mod chunk_plan;
pub mod import_subtitle;
pub mod job_ops;
pub mod llm_pipeline;
pub mod maintenance;
pub mod process_media_files;
pub mod resume_batch;
pub mod retry_job;
pub mod run_batch;
pub mod startup_recovery;
pub mod transcribe_job;
pub mod transcript_editor;
