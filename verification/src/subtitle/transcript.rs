//! The canonical transcript: immutable timed words, and the cues shown to the
//! viewer with the provenance of each text.
use vstd::prelude::*;
use vstd::string::*;

use crate::error::{outcome, DomainError, DomainErrorView, DomainResult};
use crate::text::{decimal, push_decimal};


verus! {

/// Version of the serialized document layout.
pub const SCHEMA_VERSION: u32 = 1;

/// The confidence `-1.0`, given as the bits of the single-precision number:
/// the recognizer reported none.
pub const PROB_UNAVAILABLE: u32 = 0xBF80_0000;

/// Where cue times come from.
#[derive(Debug, Clone, Copy, PartialEq, Eq, Structural)]
pub enum TimelineSource {
    /// Word ranges; cue times derive from the first and the last word.
    AsrWords,
    /// Explicit imported cue times; words may be empty.
    ImportedCue,
}

/// Fingerprint of the engine that produced the word timeline.
#[derive(Debug, PartialEq, Eq)]
pub struct EngineFingerprint {
    pub engine_id: String,
    pub adapter_version: String,
    pub runtime_version: String,
    pub model_id: String,
    pub model_digest: Option<String>,
    pub device: Option<String>,
}

impl Clone for EngineFingerprint {
    fn clone(&self) -> (copy: Self)
        ensures
            copy == *self,
    {
        EngineFingerprint {
            engine_id: self.engine_id.clone(),
            adapter_version: self.adapter_version.clone(),
            runtime_version: self.runtime_version.clone(),
            model_id: self.model_id.clone(),
            model_digest: self.model_digest.clone(),
            device: self.device.clone(),
        }
    }
}

impl EngineFingerprint {
    pub open spec fn is_unknown(self) -> bool {
        &&& self.engine_id@ == "unknown"@
        &&& self.adapter_version@ == "0"@
        &&& self.runtime_version@ == "0"@
        &&& self.model_id@ == "unknown"@
        &&& self.model_digest is None
        &&& self.device is None
    }

    pub fn unknown() -> (engine: Self)
        ensures
            engine.is_unknown(),
    {
        EngineFingerprint {
            engine_id: "unknown".to_owned(),
            adapter_version: "0".to_owned(),
            runtime_version: "0".to_owned(),
            model_id: "unknown".to_owned(),
            model_digest: None,
            device: None,
        }
    }
}

/// Field-level provenance, by which user texts are protected.
#[derive(Debug, PartialEq, Eq)]
pub enum FieldOrigin {
    Asr,
    RuleSplit,
    Llm { request_id: String },
    User,
    Imported,
}

impl Clone for FieldOrigin {
    fn clone(&self) -> (copy: Self)
        ensures
            copy == *self,
    {
        match self {
            FieldOrigin::Asr => FieldOrigin::Asr,
            FieldOrigin::RuleSplit => FieldOrigin::RuleSplit,
            FieldOrigin::Llm { request_id } => FieldOrigin::Llm { request_id: request_id.clone() },
            FieldOrigin::User => FieldOrigin::User,
            FieldOrigin::Imported => FieldOrigin::Imported,
        }
    }
}

impl FieldOrigin {
    pub fn is_user(&self) -> (answer: bool)
        ensures
            answer == (*self is User),
    {
        matches!(self, FieldOrigin::User)
    }
}

/// The text field an asynchronous language-model result may update.
#[derive(Debug, Clone, Copy, PartialEq, Eq, Structural)]
pub enum LlmTextField {
    Source,
    Translation,
}

/// Compare-and-set binding carried by an asynchronous language-model result.
#[derive(Debug, PartialEq, Eq)]
pub struct LlmResultBinding {
    pub transcript_revision: u64,
    pub field: LlmTextField,
    pub request_id: String,
}

/// One validated text update. The field revision keeps an unrelated request
/// from replacing a newer user or stage result.
#[derive(Debug, PartialEq, Eq)]
pub struct CueTextUpdate {
    pub cue_id: u32,
    pub expected_field_revision: u64,
    pub value: String,
}

/// How sure a recognizer is of a word: a single-precision number, by its bits
/// and as it is written.
#[derive(Debug, PartialEq, Eq)]
pub struct Confidence {
    pub bits: u32,
    /// The number as it is shown in messages.
    pub numeral: String,
}

impl Clone for Confidence {
    fn clone(&self) -> (copy: Self)
        ensures
            copy == *self,
    {
        Confidence { bits: self.bits, numeral: self.numeral.clone() }
    }
}

impl Confidence {
    pub fn new(bits: u32, numeral: &str) -> (confidence: Self)
        ensures
            confidence.bits == bits,
            confidence.numeral@ == numeral@,
    {
        Confidence { bits, numeral: numeral.to_owned() }
    }

    /// What stands for a confidence that is not known.
    pub fn unavailable() -> (confidence: Self)
        ensures
            confidence.bits == PROB_UNAVAILABLE,
            confidence.numeral@ == "-1"@,
    {
        Confidence { bits: PROB_UNAVAILABLE, numeral: "-1".to_owned() }
    }
}

/// A recognized word with immutable timestamps.
#[derive(Debug, PartialEq, Eq)]
pub struct Word {
    pub text: String,
    pub start_ms: u64,
    pub end_ms: u64,
    /// From zero to one, or unavailable.
    pub prob: Confidence,
}

impl Clone for Word {
    fn clone(&self) -> (copy: Self)
        ensures
            copy == *self,
    {
        Word {
            text: self.text.clone(),
            start_ms: self.start_ms,
            end_ms: self.end_ms,
            prob: self.prob.clone(),
        }
    }
}

/// The bit patterns of the single-precision numbers from zero to one: those of
/// `+0.0` up to `1.0`, whose order is the order of the numbers, and `-0.0`.
pub open spec fn unit_interval_bits(bits: u32) -> bool {
    bits <= 0x3F80_0000 || bits == 0x8000_0000
}

impl Word {
    /// The first rule that the word breaks, if any.
    pub open spec fn first_error(self) -> Option<DomainErrorView> {
        if self.end_ms < self.start_ms {
            Some(
                DomainErrorView::TimestampInvalid(
                    "word end_ms "@ + decimal(self.end_ms as nat) + " < start_ms "@ + decimal(
                        self.start_ms as nat,
                    ),
                ),
            )
        } else if self.prob.bits != PROB_UNAVAILABLE && !unit_interval_bits(self.prob.bits) {
            Some(DomainErrorView::InvalidArgument("invalid word.prob "@ + self.prob.numeral@))
        } else {
            None
        }
    }

    pub open spec fn valid(self) -> bool {
        &&& self.start_ms <= self.end_ms
        &&& self.prob.bits == PROB_UNAVAILABLE || unit_interval_bits(self.prob.bits)
    }

    pub fn has_confidence(&self) -> (answer: bool)
        ensures
            answer == unit_interval_bits(self.prob.bits),
    {
        self.prob.bits <= 0x3F80_0000 || self.prob.bits == 0x8000_0000
    }

    pub fn validate(&self) -> (result: DomainResult<()>)
        ensures
            result is Ok <==> self.valid(),
            outcome(result) == (match self.first_error() {
                Some(error) => Err(error),
                None => Ok(()),
            }),
    {
        if self.end_ms < self.start_ms {
            let mut text = String::new();
            text.append("word end_ms ");
            push_decimal(&mut text, self.end_ms);
            text.append(" < start_ms ");
            push_decimal(&mut text, self.start_ms);
            assert(text@ =~= "word end_ms "@ + decimal(self.end_ms as nat) + " < start_ms "@
                + decimal(self.start_ms as nat));
            return Err(DomainError::TimestampInvalid(text));
        }
        if self.prob.bits != PROB_UNAVAILABLE && !self.has_confidence() {
            let mut text = "invalid word.prob ".to_owned();
            text.append(self.prob.numeral.as_str());
            return Err(DomainError::InvalidArgument(text));
        }
        Ok(())
    }
}

/// Cue flags for diagnostics and filtering.
#[derive(Debug, Clone, Copy, PartialEq, Eq, Structural)]
pub struct CueFlags {
    pub llm_failed: bool,
    pub hallucination_filtered: bool,
    pub restored_fragment: bool,
    pub user_edited_text: bool,
    pub user_edited_translation: bool,
}

impl CueFlags {
    pub open spec fn none() -> CueFlags {
        CueFlags {
            llm_failed: false,
            hallucination_filtered: false,
            restored_fragment: false,
            user_edited_text: false,
            user_edited_translation: false,
        }
    }
}

impl Default for CueFlags {
    fn default() -> (flags: Self)
        ensures
            flags == CueFlags::none(),
    {
        CueFlags {
            llm_failed: false,
            hallucination_filtered: false,
            restored_fragment: false,
            user_edited_text: false,
            user_edited_translation: false,
        }
    }
}

/// Inclusive start and exclusive end of a run of words.
#[derive(Debug, Clone, Copy, PartialEq, Eq, Structural)]
pub struct RangeUsize {
    pub start: usize,
    pub end: usize,
}

impl RangeUsize {
    pub fn new(start: usize, end: usize) -> (range: Self)
        ensures
            range.start == start,
            range.end == end,
    {
        RangeUsize { start, end }
    }

    pub fn len(&self) -> (len: usize)
        ensures
            len == (if self.start <= self.end { self.end - self.start } else { 0 }),
    {
        self.end.saturating_sub(self.start)
    }

    pub fn is_empty(&self) -> (answer: bool)
        ensures
            answer == (self.start >= self.end),
    {
        self.start >= self.end
    }
}

impl From<std::ops::Range<usize>> for RangeUsize {
    fn from(r: std::ops::Range<usize>) -> (range: Self) {
        RangeUsize { start: r.start, end: r.end }
    }
}

impl vstd::std_specs::convert::FromSpecImpl<std::ops::Range<usize>> for RangeUsize {
    open spec fn obeys_from_spec() -> bool {
        true
    }

    open spec fn from_spec(r: std::ops::Range<usize>) -> RangeUsize {
        RangeUsize { start: r.start, end: r.end }
    }
}

impl From<RangeUsize> for std::ops::Range<usize> {
    fn from(r: RangeUsize) -> (range: Self) {
        r.start..r.end
    }
}

impl vstd::std_specs::convert::FromSpecImpl<RangeUsize> for std::ops::Range<usize> {
    open spec fn obeys_from_spec() -> bool {
        true
    }

    open spec fn from_spec(r: RangeUsize) -> std::ops::Range<usize> {
        r.start..r.end
    }
}

/// One subtitle cue.
#[derive(Debug, PartialEq, Eq)]
pub struct Cue {
    pub id: u32,
    /// The words of the cue, as positions in the transcript's words.
    pub word_range: Option<RangeUsize>,
    pub imported_start_ms: Option<u64>,
    pub imported_end_ms: Option<u64>,
    pub text: String,
    pub translation: Option<String>,
    pub flags: CueFlags,
    pub text_origin: Option<FieldOrigin>,
    pub translation_origin: Option<FieldOrigin>,
    /// Grows with every write of the text.
    pub text_revision: u64,
    /// Grows with every write of the translation.
    pub translation_revision: u64,
}

impl Clone for Cue {
    fn clone(&self) -> (copy: Self)
        ensures
            copy == *self,
    {
        Cue {
            id: self.id,
            word_range: self.word_range,
            imported_start_ms: self.imported_start_ms,
            imported_end_ms: self.imported_end_ms,
            text: self.text.clone(),
            translation: self.translation.clone(),
            flags: self.flags,
            text_origin: self.text_origin.clone(),
            translation_origin: self.translation_origin.clone(),
            text_revision: self.text_revision,
            translation_revision: self.translation_revision,
        }
    }
}

/// Canonical intermediate representation shared by all pipeline stages.
#[derive(Debug, PartialEq, Eq)]
pub struct Transcript {
    pub schema_version: u32,
    pub revision: u64,
    pub source_hash: String,
    pub language: Option<String>,
    pub engine: EngineFingerprint,
    pub words: Vec<Word>,
    pub cues: Vec<Cue>,
    pub next_cue_id: u32,
    pub timeline_source: TimelineSource,
}

/// A transcript with its lists as sequences.
#[verifier::ext_equal]
pub struct TranscriptView {
    pub schema_version: u32,
    pub revision: u64,
    pub source_hash: Seq<char>,
    pub language: Option<String>,
    pub engine: EngineFingerprint,
    pub words: Seq<Word>,
    pub cues: Seq<Cue>,
    pub next_cue_id: u32,
    pub timeline_source: TimelineSource,
}

impl View for Transcript {
    type V = TranscriptView;

    open spec fn view(&self) -> TranscriptView {
        TranscriptView {
            schema_version: self.schema_version,
            revision: self.revision,
            source_hash: self.source_hash@,
            language: self.language,
            engine: self.engine,
            words: self.words@,
            cues: self.cues@,
            next_cue_id: self.next_cue_id,
            timeline_source: self.timeline_source,
        }
    }
}


/// A revision one higher, or the same where there is none higher.
pub open spec fn bumped(revision: u64) -> u64 {
    if revision < u64::MAX {
        (revision + 1) as u64
    } else {
        revision
    }
}

/// A remark about the cue `id`.
pub open spec fn cue_remark(id: u32, remark: Seq<char>) -> Seq<char> {
    "cue "@ + decimal(id as nat) + remark
}

fn cue_remark_text(id: u32, remark: &str) -> (text: String)
    ensures
        text@ == cue_remark(id, remark@),
{
    let mut text = String::new();
    text.append("cue ");
    push_decimal(&mut text, id as u64);
    text.append(remark);
    assert(text@ =~= cue_remark(id, remark@));
    text
}

fn cue_timestamp_error(id: u32, remark: &str) -> (error: DomainError)
    ensures
        error@ == DomainErrorView::TimestampInvalid(cue_remark(id, remark@)),
{
    DomainError::TimestampInvalid(cue_remark_text(id, remark))
}

impl TranscriptView {
    /// When a cue is shown, or why that is undefined.
    pub open spec fn times(self, cue: Cue) -> Result<(u64, u64), DomainErrorView> {
        match self.timeline_source {
            TimelineSource::AsrWords => match cue.word_range {
                None => Err(
                    DomainErrorView::TimestampInvalid(cue_remark(cue.id, " missing word_range"@)),
                ),
                Some(range) => if range.start < range.end <= self.words.len() {
                    Ok(
                        (
                            self.words[range.start as int].start_ms,
                            self.words[range.end - 1].end_ms,
                        ),
                    )
                } else {
                    Err(
                        DomainErrorView::TimestampInvalid(
                            cue_remark(cue.id, " has invalid word_range"@),
                        ),
                    )
                },
            },
            TimelineSource::ImportedCue => match (cue.imported_start_ms, cue.imported_end_ms) {
                (None, _) => Err(
                    DomainErrorView::TimestampInvalid(
                        cue_remark(cue.id, " missing imported_start_ms"@),
                    ),
                ),
                (_, None) => Err(
                    DomainErrorView::TimestampInvalid(
                        cue_remark(cue.id, " missing imported_end_ms"@),
                    ),
                ),
                (Some(start), Some(end)) => if start <= end {
                    Ok((start, end))
                } else {
                    Err(DomainErrorView::TimestampInvalid(cue_remark(cue.id, " end < start"@)))
                },
            },
        }
    }

    /// The first error among the words from `i` on.
    pub open spec fn word_error(self, i: int) -> Option<DomainErrorView>
        decreases self.words.len() - i,
    {
        if i < 0 || i >= self.words.len() {
            None
        } else if self.words[i].first_error() is Some {
            self.words[i].first_error()
        } else {
            self.word_error(i + 1)
        }
    }

    /// The first word from `i` on that starts before the word in front of it.
    pub open spec fn order_error(self, i: int) -> Option<DomainErrorView>
        decreases self.words.len() - i,
    {
        if i < 1 || i >= self.words.len() {
            None
        } else if self.words[i].start_ms < self.words[i - 1].start_ms {
            Some(
                DomainErrorView::TimestampInvalid("words not ordered at index "@ + decimal(i as nat)),
            )
        } else {
            self.order_error(i + 1)
        }
    }

    /// What is wrong with the document apart from its cues.
    pub open spec fn timeline_error(self) -> Option<DomainErrorView> {
        if self.schema_version == 0 {
            Some(DomainErrorView::InvalidArgument("schema_version must be non-zero"@))
        } else if self.word_error(0) is Some {
            self.word_error(0)
        } else {
            self.order_error(1)
        }
    }

    /// What is wrong with a cue whose words may begin at `free` at the earliest.
    pub open spec fn one_cue_error(self, cue: Cue, free: int) -> Option<DomainErrorView> {
        if cue.word_range matches Some(range) && !(range.start < range.end <= self.words.len()) {
            Some(DomainErrorView::TimestampInvalid(cue_remark(cue.id, " invalid word_range"@)))
        } else if cue.word_range matches Some(range) && range.start < free {
            Some(
                DomainErrorView::TimestampInvalid(
                    cue_remark(cue.id, " overlaps previous word range"@),
                ),
            )
        } else {
            match self.times(cue) {
                Ok(_) => None,
                Err(error) => Some(error),
            }
        }
    }

    /// Where the words of a later cue may begin.
    pub open spec fn free_after(cue: Cue, free: int) -> int {
        match cue.word_range {
            Some(range) => range.end as int,
            None => free,
        }
    }

    /// The first error among the cues from `i` on.
    pub open spec fn cue_error(self, i: int, free: int) -> Option<DomainErrorView>
        decreases self.cues.len() - i,
    {
        if i < 0 || i >= self.cues.len() {
            None
        } else if self.one_cue_error(self.cues[i], free) is Some {
            self.one_cue_error(self.cues[i], free)
        } else {
            self.cue_error(i + 1, Self::free_after(self.cues[i], free))
        }
    }

    /// The first rule that the transcript breaks, if any.
    pub open spec fn first_error(self) -> Option<DomainErrorView> {
        if self.timeline_error() is Some {
            self.timeline_error()
        } else {
            self.cue_error(0, 0)
        }
    }

    /// The cue's word range, if it has one, is a non-empty run of words.
    pub open spec fn range_in_words(self, cue: Cue) -> bool {
        cue.word_range matches Some(range) ==> range.start < range.end <= self.words.len()
    }

    /// The words of `a` end before the words of `b` begin.
    pub open spec fn apart(a: Cue, b: Cue) -> bool {
        a.word_range matches Some(ra) ==> b.word_range matches Some(rb) ==> ra.end <= rb.start
    }

    /// The timeline is in order, and every cue has its time and its own words.
    pub open spec fn valid(self) -> bool {
        &&& self.schema_version != 0
        &&& forall|i: int| 0 <= i < self.words.len() ==> (#[trigger] self.words[i]).valid()
        &&& forall|i: int, j: int|
            0 <= i <= j < self.words.len() ==> (#[trigger] self.words[i]).start_ms <= (
            #[trigger] self.words[j]).start_ms
        &&& forall|i: int|
            0 <= i < self.cues.len() ==> self.range_in_words(#[trigger] self.cues[i])
                && self.times(self.cues[i]) is Ok
        &&& forall|i: int, j: int|
            0 <= i < j < self.cues.len() ==> Self::apart(
                #[trigger] self.cues[i],
                #[trigger] self.cues[j],
            )
    }
}

proof fn lemma_word_error(t: TranscriptView, i: int)
    requires
        0 <= i <= t.words.len(),
    ensures
        t.word_error(i) is None <==> (forall|k: int|
            i <= k < t.words.len() ==> (#[trigger] t.words[k]).valid()),
    decreases t.words.len() - i,
{
    if i < t.words.len() {
        lemma_word_error(t, i + 1);
        assert(t.words[i].first_error() is None <==> t.words[i].valid());
    }
}

proof fn lemma_order_error(t: TranscriptView, i: int)
    requires
        1 <= i,
    ensures
        t.order_error(i) is None <==> (forall|a: int, b: int|
            i - 1 <= a <= b < t.words.len() ==> (#[trigger] t.words[a]).start_ms <= (
            #[trigger] t.words[b]).start_ms),
    decreases t.words.len() - i,
{
    if i < t.words.len() {
        lemma_order_error(t, i + 1);
        if t.order_error(i) is None {
            assert forall|a: int, b: int| i - 1 <= a <= b < t.words.len() implies (
            #[trigger] t.words[a]).start_ms <= (#[trigger] t.words[b]).start_ms by {
                if a == i - 1 && b > a {
                    assert(t.words[i].start_ms <= t.words[b].start_ms);
                }
            }
        }
    }
}

proof fn lemma_cue_error(t: TranscriptView, i: int, free: int)
    requires
        0 <= i <= t.cues.len(),
    ensures
        t.cue_error(i, free) is None <==> {
            &&& forall|k: int|
                i <= k < t.cues.len() ==> t.range_in_words(#[trigger] t.cues[k]) && t.times(
                    t.cues[k],
                ) is Ok
            &&& forall|k: int|
                i <= k < t.cues.len() ==> ((#[trigger] t.cues[k]).word_range matches Some(range)
                    ==> free <= range.start)
            &&& forall|a: int, b: int|
                i <= a < b < t.cues.len() ==> TranscriptView::apart(
                    #[trigger] t.cues[a],
                    #[trigger] t.cues[b],
                )
        },
    decreases t.cues.len() - i,
{
    if i < t.cues.len() {
        let next = TranscriptView::free_after(t.cues[i], free);
        lemma_cue_error(t, i + 1, next);
        if t.cue_error(i, free) is None {
            assert forall|k: int| i <= k < t.cues.len() implies ((
            #[trigger] t.cues[k]).word_range matches Some(range) ==> free <= range.start) by {
                if k > i {
                    assert(t.cues[k].word_range matches Some(range) ==> next <= range.start);
                }
            }
            assert forall|a: int, b: int| i <= a < b < t.cues.len() implies TranscriptView::apart(
                #[trigger] t.cues[a],
                #[trigger] t.cues[b],
            ) by {
                if a == i {
                    assert(t.cues[b].word_range matches Some(range) ==> next <= range.start);
                }
            }
        } else if t.one_cue_error(t.cues[i], free) is None {
            assert forall|k: int| i + 1 <= k < t.cues.len() implies ((
            #[trigger] t.cues[k]).word_range matches Some(range) ==> next <= range.start) || !({
                &&& forall|k: int|
                    i <= k < t.cues.len() ==> ((#[trigger] t.cues[k]).word_range matches Some(range)
                        ==> free <= range.start)
                &&& forall|a: int, b: int|
                    i <= a < b < t.cues.len() ==> TranscriptView::apart(
                        #[trigger] t.cues[a],
                        #[trigger] t.cues[b],
                    )
            }) by {
                if forall|a: int, b: int|
                    i <= a < b < t.cues.len() ==> TranscriptView::apart(
                        #[trigger] t.cues[a],
                        #[trigger] t.cues[b],
                    ) {
                    assert(TranscriptView::apart(t.cues[i], t.cues[k]));
                }
            }
        }
    }
}

/// Validation finds nothing to object to exactly when the transcript is valid.
pub proof fn law_no_error_means_valid(t: TranscriptView)
    ensures
        t.first_error() is None <==> t.valid(),
{
    lemma_word_error(t, 0);
    lemma_order_error(t, 1);
    lemma_cue_error(t, 0, 0);
    if t.valid() {
        assert forall|k: int| 0 <= k < t.cues.len() implies ((
        #[trigger] t.cues[k]).word_range matches Some(range) ==> 0 <= range.start) by {}
    }
}

impl Clone for Transcript {
    fn clone(&self) -> (copy: Self)
        ensures
            copy@ == self@,
    {
        let words = self.words.clone();
        let cues = self.cues.clone();
        assert(words@ =~= self.words@);
        assert(cues@ =~= self.cues@);
        Transcript {
            schema_version: self.schema_version,
            revision: self.revision,
            source_hash: self.source_hash.clone(),
            language: self.language.clone(),
            engine: self.engine.clone(),
            words,
            cues,
            next_cue_id: self.next_cue_id,
            timeline_source: self.timeline_source,
        }
    }
}

/// The largest cue identifier, or zero without cues.
pub open spec fn max_cue_id(cues: Seq<Cue>) -> u32
    decreases cues.len(),
{
    if cues.len() == 0 {
        0
    } else if max_cue_id(cues.drop_last()) < cues.last().id {
        cues.last().id
    } else {
        max_cue_id(cues.drop_last())
    }
}

impl Transcript {
    pub fn try_new_asr(
        source_hash: &str,
        engine: EngineFingerprint,
        words: Vec<Word>,
    ) -> (result: DomainResult<Self>)
        ensures
            match result {
                Ok(t) => t@ == asr_transcript(source_hash@, engine, words@) && t@.valid(),
                Err(error) => asr_transcript(source_hash@, engine, words@).first_error() == Some(
                    error@,
                ),
            },
    {
        let transcript = Transcript::new_asr(source_hash, engine, words);
        transcript.validate()?;
        Ok(transcript)
    }

    pub fn new_asr(source_hash: &str, engine: EngineFingerprint, words: Vec<Word>) -> (t: Self)
        ensures
            t@ == asr_transcript(source_hash@, engine, words@),
    {
        Transcript {
            schema_version: SCHEMA_VERSION,
            revision: 1,
            source_hash: source_hash.to_owned(),
            language: None,
            engine,
            words,
            cues: Vec::new(),
            next_cue_id: 1,
            timeline_source: TimelineSource::AsrWords,
        }
    }

    pub fn try_new_imported(source_hash: &str, cues: Vec<Cue>) -> (result: DomainResult<Self>)
        ensures
            match result {
                Ok(t) => imported_transcript(source_hash@, cues@, t@) && t@.valid(),
                Err(error) => exists|t: TranscriptView|
                    #[trigger] imported_transcript(source_hash@, cues@, t) && t.first_error()
                        == Some(error@),
            },
    {
        let transcript = Transcript::new_imported(source_hash, cues);
        match transcript.validate() {
            Ok(_) => Ok(transcript),
            Err(error) => {
                assert(imported_transcript(source_hash@, cues@, transcript@));
                Err(error)
            },
        }
    }

    pub fn new_imported(source_hash: &str, cues: Vec<Cue>) -> (t: Self)
        ensures
            imported_transcript(source_hash@, cues@, t@),
    {
        let mut max_id: u32 = 0;
        let mut i: usize = 0;
        assert(cues@.take(0) =~= seq![]);
        while i < cues.len()
            invariant
                i <= cues.len(),
                max_id == max_cue_id(cues@.take(i as int)),
            decreases cues.len() - i,
        {
            if max_id < cues[i].id {
                max_id = cues[i].id;
            }
            i += 1;
            assert(cues@.take(i as int).drop_last() =~= cues@.take(i - 1));
        }
        assert(cues@.take(i as int) =~= cues@);
        Transcript {
            schema_version: SCHEMA_VERSION,
            revision: 1,
            source_hash: source_hash.to_owned(),
            language: None,
            engine: EngineFingerprint::unknown(),
            words: Vec::new(),
            cues,
            next_cue_id: max_id.saturating_add(1),
            timeline_source: TimelineSource::ImportedCue,
        }
    }

    /// Start and end of a cue: from its words on a recognized timeline, from
    /// its explicit times on an imported one.
    pub fn cue_times(&self, cue: &Cue) -> (result: DomainResult<(u64, u64)>)
        ensures
            outcome(result) == self@.times(*cue),
    {
        match self.timeline_source {
            TimelineSource::AsrWords => {
                let range = match cue.word_range {
                    Some(range) => range,
                    None => {
                        return Err(cue_timestamp_error(cue.id, " missing word_range"));
                    },
                };
                if range.is_empty() || range.end > self.words.len() {
                    return Err(cue_timestamp_error(cue.id, " has invalid word_range"));
                }
                let start: u64 = self.words[range.start].start_ms;
                let end: u64 = self.words[range.end - 1].end_ms;
                Ok((start, end))
            },
            TimelineSource::ImportedCue => {
                let start: u64 = match cue.imported_start_ms {
                    Some(start) => start,
                    None => {
                        return Err(cue_timestamp_error(cue.id, " missing imported_start_ms"));
                    },
                };
                let end: u64 = match cue.imported_end_ms {
                    Some(end) => end,
                    None => {
                        return Err(cue_timestamp_error(cue.id, " missing imported_end_ms"));
                    },
                };
                if end < start {
                    return Err(cue_timestamp_error(cue.id, " end < start"));
                }
                Ok((start, end))
            },
        }
    }

    /// Check the timeline invariants and report the first that is broken.
    pub fn validate(&self) -> (result: DomainResult<()>)
        ensures
            result is Ok <==> self@.valid(),
            outcome(result) == (match self@.first_error() {
                Some(error) => Err(error),
                None => Ok(()),
            }),
    {
        proof {
            law_no_error_means_valid(self@);
        }
        if self.schema_version == 0 {
            return Err(DomainError::invalid("schema_version must be non-zero"));
        }
        let mut i: usize = 0;
        while i < self.words.len()
            invariant
                i <= self.words.len(),
                self@.first_error() is None <==> self@.valid(),
                self.schema_version != 0,
                self@.word_error(0) == self@.word_error(i as int),
            decreases self.words.len() - i,
        {
            self.words[i].validate()?;
            i += 1;
        }
        let mut i: usize = 1;
        while i < self.words.len()
            invariant
                1 <= i,
                self@.first_error() is None <==> self@.valid(),
                self.schema_version != 0,
                self@.word_error(0) is None,
                self@.order_error(1) == self@.order_error(i as int),
            decreases self.words.len() - i,
        {
            if self.words[i].start_ms < self.words[i - 1].start_ms {
                let mut text = String::new();
                text.append("words not ordered at index ");
                push_decimal(&mut text, i as u64);
                assert(text@ =~= "words not ordered at index "@ + decimal(i as nat));
                return Err(DomainError::TimestampInvalid(text));
            }
            i += 1;
        }
        let mut last_end: usize = 0;
        let mut i: usize = 0;
        while i < self.cues.len()
            invariant
                i <= self.cues.len(),
                self@.first_error() is None <==> self@.valid(),
                self@.timeline_error() is None,
                self@.cue_error(0, 0) == self@.cue_error(i as int, last_end as int),
            decreases self.cues.len() - i,
        {
            let cue = &self.cues[i];
            let ghost free = last_end as int;
            if let Some(range) = cue.word_range {
                if range.is_empty() || range.end > self.words.len() {
                    return Err(cue_timestamp_error(cue.id, " invalid word_range"));
                }
                if range.start < last_end {
                    return Err(cue_timestamp_error(cue.id, " overlaps previous word range"));
                }
                last_end = range.end;
            }
            self.cue_times(cue)?;
            assert(self@.one_cue_error(*cue, free) is None);
            i += 1;
        }
        Ok(())
    }

    pub fn bump_revision(&mut self)
        ensures
            final(self)@ == (TranscriptView { revision: bumped(old(self)@.revision), ..old(self)@ }),
    {
        self.revision = self.revision.saturating_add(1);
    }

    pub fn allocate_cue_id(&mut self) -> (id: u32)
        ensures
            id == old(self)@.next_cue_id,
            final(self)@ == (TranscriptView {
                next_cue_id: (if id < u32::MAX {
                    (id + 1) as u32
                } else {
                    id
                }),
                ..old(self)@
            }),
    {
        let id: u32 = self.next_cue_id;
        self.next_cue_id = self.next_cue_id.saturating_add(1);
        id
    }
}

/// A recognized transcript before any cue has been cut.
pub open spec fn asr_transcript(
    source_hash: Seq<char>,
    engine: EngineFingerprint,
    words: Seq<Word>,
) -> TranscriptView {
    TranscriptView {
        schema_version: SCHEMA_VERSION,
        revision: 1,
        source_hash,
        language: None,
        engine,
        words,
        cues: seq![],
        next_cue_id: 1,
        timeline_source: TimelineSource::AsrWords,
    }
}

/// `t` is the transcript of imported cues.
pub open spec fn imported_transcript(
    source_hash: Seq<char>,
    cues: Seq<Cue>,
    t: TranscriptView,
) -> bool {
    let next = max_cue_id(cues) + 1;
    &&& t.engine.is_unknown()
    &&& t == TranscriptView {
        schema_version: SCHEMA_VERSION,
        revision: 1,
        source_hash,
        language: None,
        engine: t.engine,
        words: seq![],
        cues,
        next_cue_id: if next <= u32::MAX {
            next as u32
        } else {
            u32::MAX
        },
        timeline_source: TimelineSource::ImportedCue,
    }
}

} // verus!
