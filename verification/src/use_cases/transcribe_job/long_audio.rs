//! The transcript of sound that was recognized in chunks.
use vstd::prelude::*;
use vstd::string::*;

use crate::contracts::{AppResult, ApplicationError, ApplicationErrorView};
use crate::subtitle::transcript::{
    asr_transcript, EngineFingerprint, Transcript, TranscriptView, Word,
};
use crate::text::same_text;

verus! {

/// What has been recognized of the chunks so far.
#[derive(Debug)]
pub struct ChunkedTranscript {
    words: Vec<Word>,
    language: Option<String>,
    engine: EngineFingerprint,
}

/// What has been recognized so far, as plain values.
#[verifier::ext_equal]
pub struct ChunkedTranscriptView {
    pub words: Seq<Word>,
    pub language: Option<String>,
    pub engine: EngineFingerprint,
}

impl View for ChunkedTranscript {
    type V = ChunkedTranscriptView;

    closed spec fn view(&self) -> ChunkedTranscriptView {
        ChunkedTranscriptView {
            words: self.words@,
            language: self.language,
            engine: self.engine,
        }
    }
}

impl ChunkedTranscriptView {
    /// With the words of one more chunk. The first engine that is known and the
    /// first language that was found stand for the whole.
    pub open spec fn with_chunk(
        self,
        engine: EngineFingerprint,
        language: Option<String>,
        words: Seq<Word>,
    ) -> ChunkedTranscriptView {
        ChunkedTranscriptView {
            words: self.words + words,
            language: match self.language {
                Some(_) => self.language,
                None => language,
            },
            engine: if self.engine.engine_id@ == "unknown"@ {
                engine
            } else {
                self.engine
            },
        }
    }
}

impl ChunkedTranscriptView {
    /// The transcript of the whole.
    pub open spec fn whole(self, source_hash: Seq<char>, language: Option<String>) -> TranscriptView {
        TranscriptView {
            language: match self.language {
                Some(_) => self.language,
                None => language,
            },
            ..asr_transcript(source_hash, self.engine, self.words)
        }
    }
}

impl ChunkedTranscript {
    pub fn new() -> (chunks: Self)
        ensures
            chunks@.words == Seq::<Word>::empty(),
            chunks@.language is None,
            chunks@.engine.is_unknown(),
    {
        ChunkedTranscript {
            words: Vec::new(),
            language: None,
            engine: EngineFingerprint::unknown(),
        }
    }

    /// Add what was recognized in a chunk. `words` are those of its words that
    /// lie in the core of the chunk, at their times in the whole.
    pub fn append_chunk_words(&mut self, raw: &Transcript, words: Vec<Word>)
        ensures
            final(self)@ == old(self)@.with_chunk(raw.engine, raw.language, words@),
    {
        if same_text(self.engine.engine_id.as_str(), "unknown") {
            self.engine = raw.engine.clone();
        }
        if self.language.is_none() {
            self.language = raw.language.clone();
        }
        let ghost added = words@;
        let mut words = words;
        self.words.append(&mut words);
        assert(self@ =~= old(self)@.with_chunk(raw.engine, raw.language, added));
    }

    /// The transcript of the whole, in the language that was found or else the
    /// one that was asked for.
    pub fn finish(self, source_hash: &str, language: &Option<String>) -> (result: AppResult<Transcript>)
        ensures
            ({
                let whole = self@.whole(source_hash@, *language);
                match result {
                    Ok(transcript) => transcript@ == whole && whole.valid(),
                    Err(error) => error@ matches ApplicationErrorView::Domain(e)
                        && whole.first_error() == Some(e),
                }
            }),
    {
        let mut transcript = Transcript::new_asr(source_hash, self.engine, self.words);
        transcript.language = match self.language {
            Some(found) => Some(found),
            None => language.clone(),
        };
        assert(transcript@ =~= self@.whole(source_hash@, *language));
        match transcript.validate() {
            Ok(_) => Ok(transcript),
            Err(error) => Err(ApplicationError::Domain(error)),
        }
    }
}

/// Chunks one after the other give their words one after the other.
pub proof fn law_chunks_keep_their_order(
    before: ChunkedTranscriptView,
    first: (EngineFingerprint, Option<String>, Seq<Word>),
    second: (EngineFingerprint, Option<String>, Seq<Word>),
)
    ensures
        before.with_chunk(first.0, first.1, first.2).with_chunk(second.0, second.1, second.2).words
            == before.words + (first.2 + second.2),
{
    assert(before.with_chunk(first.0, first.1, first.2).with_chunk(
        second.0,
        second.1,
        second.2,
    ).words =~= before.words + (first.2 + second.2));
}

/// What was found in one chunk: the engine, the language and the words of the
/// core.
pub type ChunkFindings = (EngineFingerprint, Option<String>, Seq<Word>);

/// What chunks one after the other add up to.
pub open spec fn added_up(start: ChunkedTranscriptView, chunks: Seq<ChunkFindings>) -> ChunkedTranscriptView
    decreases chunks.len(),
{
    if chunks.len() == 0 {
        start
    } else {
        added_up(start, chunks.drop_last()).with_chunk(
            chunks.last().0,
            chunks.last().1,
            chunks.last().2,
        )
    }
}

/// Nothing has been recognized yet.
pub open spec fn nothing_yet(state: ChunkedTranscriptView) -> bool {
    &&& state.words == Seq::<Word>::empty()
    &&& state.language is None
    &&& state.engine.is_unknown()
}

/// The same findings add up to the same words, and where there is a chunk at
/// all to the same transcript.
pub proof fn law_same_findings_give_the_same_transcript(
    first: ChunkedTranscriptView,
    second: ChunkedTranscriptView,
    chunks: Seq<ChunkFindings>,
)
    requires
        nothing_yet(first),
        nothing_yet(second),
    ensures
        added_up(first, chunks).words == added_up(second, chunks).words,
        added_up(first, chunks).language == added_up(second, chunks).language,
        chunks.len() > 0 ==> added_up(first, chunks) == added_up(second, chunks),
    decreases chunks.len(),
{
    if chunks.len() > 0 {
        law_same_findings_give_the_same_transcript(first, second, chunks.drop_last());
    }
}

/// The words of a chunk follow those of the chunks before it. The language and
/// the recognizer are those of the first chunk that tells.
pub proof fn law_chunks_are_added_behind(
    state: ChunkedTranscriptView,
    engine: EngineFingerprint,
    language: Option<String>,
    words: Seq<Word>,
)
    ensures
        ({
            let after = state.with_chunk(engine, language, words);
            &&& after.words.len() == state.words.len() + words.len()
            &&& forall|i: int| 0 <= i < state.words.len() ==> after.words[i] == state.words[i]
            &&& forall|i: int|
                0 <= i < words.len() ==> after.words[state.words.len() + i] == words[i]
            &&& state.language is Some ==> after.language == state.language
            &&& state.language is None ==> after.language == language
            &&& state.engine.engine_id@ == "unknown"@ ==> after.engine == engine
            &&& state.engine.engine_id@ != "unknown"@ ==> after.engine == state.engine
        }),
{
}

/// The whole transcript has all the words and no cues yet. Its language is the
/// one that was heard, else the one that was asked for.
pub proof fn law_the_whole_has_all_words(
    state: ChunkedTranscriptView,
    source_hash: Seq<char>,
    language: Option<String>,
)
    ensures
        ({
            let whole = state.whole(source_hash, language);
            &&& whole.words == state.words && whole.cues.len() == 0
            &&& whole.source_hash == source_hash && whole.engine == state.engine
            &&& state.language is Some ==> whole.language == state.language
            &&& state.language is None ==> whole.language == language
        }),
{
}

} // verus!
