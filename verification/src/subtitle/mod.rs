//! The subtitle document: words, cues and how their texts are assembled.
pub mod laws;
pub mod revision;
pub mod text_joiner;
pub mod transcript;

pub use text_joiner::{join_word_texts, join_words};
pub use transcript::{
    Confidence, Cue, CueFlags, CueTextUpdate, EngineFingerprint, FieldOrigin, LlmResultBinding,
    LlmTextField, RangeUsize, TimelineSource, Transcript, Word, PROB_UNAVAILABLE,
};
