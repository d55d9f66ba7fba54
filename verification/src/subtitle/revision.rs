//! Revisions of a transcript: user edits, language-model texts and re-splits.
//! Every operation yields a new transcript, checked before it is handed out,
//! and leaves the timed words as they are.
use vstd::prelude::*;
use vstd::slice::*;
use vstd::string::*;

use crate::error::{DomainError, DomainErrorView, DomainResult};
use crate::text::{decimal, push_decimal};

use super::text_joiner::{join_word_texts, word_texts, words_joined};
use super::transcript::{
    bumped, law_no_error_means_valid, Cue, CueFlags, CueTextUpdate, FieldOrigin, LlmResultBinding,
    LlmTextField, RangeUsize, TimelineSource, Transcript, TranscriptView, Word,
};

verus! {

/// The position of the first cue with the identifier `id`, from `from` on.
pub open spec fn cue_position(cues: Seq<Cue>, id: u32, from: int) -> Option<int>
    decreases cues.len() - from,
{
    if from < 0 || from >= cues.len() {
        None
    } else if cues[from].id == id {
        Some(from)
    } else {
        cue_position(cues, id, from + 1)
    }
}

pub open spec fn no_such_cue(id: u32) -> DomainErrorView {
    DomainErrorView::MemberNotFound {
        aggregate: "Transcript"@,
        id: "cue "@ + decimal(id as nat),
    }
}

/// Find the first cue with the identifier `id`.
pub fn cue_index(cues: &Vec<Cue>, id: u32) -> (index: Option<usize>)
    ensures
        match index {
            Some(p) => p < cues@.len() && cues@[p as int].id == id && cue_position(cues@, id, 0)
                == Some(p as int),
            None => cue_position(cues@, id, 0) is None,
        },
{
    let mut i: usize = 0;
    while i < cues.len()
        invariant
            i <= cues.len(),
            cue_position(cues@, id, 0) == cue_position(cues@, id, i as int),
        decreases cues.len() - i,
    {
        if cues[i].id == id {
            return Some(i);
        }
        i += 1;
    }
    None
}

fn find_cue(cues: &Vec<Cue>, id: u32) -> (result: DomainResult<usize>)
    ensures
        match result {
            Ok(p) => p < cues.len() && cue_position(cues@, id, 0) == Some(p as int),
            Err(error) => cue_position(cues@, id, 0) is None && error@ == no_such_cue(id),
        },
{
    if let Some(p) = cue_index(cues, id) {
        return Ok(p);
    }
    let mut text = String::new();
    text.append("cue ");
    push_decimal(&mut text, id as u64);
    assert(text@ =~= "cue "@ + decimal(id as nat));
    Err(DomainError::MemberNotFound { aggregate: "Transcript", id: text })
}

/// The transcript where nothing is wrong with it, otherwise its first error.
pub open spec fn checked(t: TranscriptView) -> Result<TranscriptView, DomainErrorView> {
    match t.first_error() {
        Some(error) => Err(error),
        None => Ok(t),
    }
}

/// A new transcript, or the error in place of it, agrees with `expected`.
pub open spec fn gives(
    result: DomainResult<Transcript>,
    expected: Result<TranscriptView, DomainErrorView>,
) -> bool {
    match result {
        Ok(t) => expected == Ok::<TranscriptView, DomainErrorView>(t@),
        Err(error) => expected == Err::<TranscriptView, DomainErrorView>(error@),
    }
}

fn check(t: Transcript) -> (result: DomainResult<Transcript>)
    ensures
        gives(result, checked(t@)),
{
    t.validate()?;
    Ok(t)
}

pub open spec fn field_revision(cue: Cue, field: LlmTextField) -> u64 {
    match field {
        LlmTextField::Source => cue.text_revision,
        LlmTextField::Translation => cue.translation_revision,
    }
}

/// The field was last written by the user.
pub open spec fn user_owned(cue: Cue, field: LlmTextField) -> bool {
    match field {
        LlmTextField::Source => cue.text_origin == Some(FieldOrigin::User),
        LlmTextField::Translation => cue.translation_origin == Some(FieldOrigin::User),
    }
}

/// The cue with one field written by `origin`.
pub open spec fn with_field(
    cue: Cue,
    field: LlmTextField,
    value: String,
    origin: FieldOrigin,
) -> Cue {
    match field {
        LlmTextField::Source => Cue {
            text: value,
            text_origin: Some(origin),
            flags: CueFlags { user_edited_text: origin is User, ..cue.flags },
            text_revision: bumped(cue.text_revision),
            ..cue
        },
        LlmTextField::Translation => Cue {
            translation: Some(value),
            translation_origin: Some(origin),
            flags: CueFlags { user_edited_translation: origin is User, ..cue.flags },
            translation_revision: bumped(cue.translation_revision),
            ..cue
        },
    }
}

fn write_field(cue: &Cue, field: LlmTextField, value: String, origin: FieldOrigin) -> (written: Cue)
    ensures
        written == with_field(*cue, field, value, origin),
{
    let mut written = cue.clone();
    let by_user = origin.is_user();
    match field {
        LlmTextField::Source => {
            written.text = value;
            written.text_origin = Some(origin);
            written.flags.user_edited_text = by_user;
            written.text_revision = cue.text_revision.saturating_add(1);
        },
        LlmTextField::Translation => {
            written.translation = Some(value);
            written.translation_origin = Some(origin);
            written.flags.user_edited_translation = by_user;
            written.translation_revision = cue.translation_revision.saturating_add(1);
        },
    }
    written
}

/// The cues after one language-model update, and whether anything was written.
/// A field that the user owns is left alone without an error.
pub open spec fn after_update(
    cues: Seq<Cue>,
    binding: LlmResultBinding,
    update: CueTextUpdate,
) -> Result<(Seq<Cue>, bool), DomainErrorView> {
    match cue_position(cues, update.cue_id, 0) {
        None => Err(no_such_cue(update.cue_id)),
        Some(p) => if field_revision(cues[p], binding.field) != update.expected_field_revision {
            Err(
                DomainErrorView::StaleRevision {
                    expected: update.expected_field_revision,
                    actual: field_revision(cues[p], binding.field),
                },
            )
        } else if user_owned(cues[p], binding.field) {
            Ok((cues, false))
        } else {
            Ok(
                (
                    cues.update(
                        p,
                        with_field(
                            cues[p],
                            binding.field,
                            update.value,
                            FieldOrigin::Llm { request_id: binding.request_id },
                        ),
                    ),
                    true,
                ),
            )
        },
    }
}

/// The cues after all updates in order, up to the first that fails.
pub open spec fn after_updates(
    cues: Seq<Cue>,
    binding: LlmResultBinding,
    updates: Seq<CueTextUpdate>,
) -> Result<(Seq<Cue>, bool), DomainErrorView>
    decreases updates.len(),
{
    if updates.len() == 0 {
        Ok((cues, false))
    } else {
        match after_updates(cues, binding, updates.drop_last()) {
            Err(error) => Err(error),
            Ok((before, changed)) => match after_update(before, binding, updates.last()) {
                Err(error) => Err(error),
                Ok((after, written)) => Ok((after, changed || written)),
            },
        }
    }
}

/// The transcript with other cues, one revision later if anything changed.
pub open spec fn with_cues(t: TranscriptView, cues: Seq<Cue>, changed: bool) -> TranscriptView {
    TranscriptView {
        cues,
        revision: if changed {
            bumped(t.revision)
        } else {
            t.revision
        },
        ..t
    }
}

/// What becomes of a language-model result: refused when the transcript has
/// moved on since it was asked for, or when a field has.
pub open spec fn llm_text_outcome(
    t: TranscriptView,
    binding: LlmResultBinding,
    updates: Seq<CueTextUpdate>,
) -> Result<TranscriptView, DomainErrorView> {
    if t.revision != binding.transcript_revision {
        Err(
            DomainErrorView::StaleRevision {
                expected: binding.transcript_revision,
                actual: t.revision,
            },
        )
    } else {
        match after_updates(t.cues, binding, updates) {
            Err(error) => Err(error),
            Ok((cues, changed)) => checked(with_cues(t, cues, changed)),
        }
    }
}

/// What becomes of a user's edit of one field.
pub open spec fn edit_outcome(
    t: TranscriptView,
    cue_id: u32,
    expected_revision: u64,
    field: LlmTextField,
    value: String,
) -> Result<TranscriptView, DomainErrorView> {
    if t.revision != expected_revision {
        Err(DomainErrorView::StaleRevision { expected: expected_revision, actual: t.revision })
    } else {
        match cue_position(t.cues, cue_id, 0) {
            None => Err(no_such_cue(cue_id)),
            Some(p) => checked(
                with_cues(
                    t,
                    t.cues.update(p, with_field(t.cues[p], field, value, FieldOrigin::User)),
                    true,
                ),
            ),
        }
    }
}

pub open spec fn with_failure(cue: Cue) -> Cue {
    Cue { flags: CueFlags { llm_failed: true, ..cue.flags }, ..cue }
}

/// The cues with those of `ids` marked, and whether any was not marked before.
pub open spec fn after_failures(cues: Seq<Cue>, ids: Seq<u32>) -> Result<
    (Seq<Cue>, bool),
    DomainErrorView,
>
    decreases ids.len(),
{
    if ids.len() == 0 {
        Ok((cues, false))
    } else {
        match after_failures(cues, ids.drop_last()) {
            Err(error) => Err(error),
            Ok((before, changed)) => match cue_position(before, ids.last(), 0) {
                None => Err(no_such_cue(ids.last())),
                Some(p) => Ok(
                    (
                        before.update(p, with_failure(before[p])),
                        changed || !before[p].flags.llm_failed,
                    ),
                ),
            },
        }
    }
}

pub open spec fn failure_outcome(t: TranscriptView, ids: Seq<u32>) -> Result<
    TranscriptView,
    DomainErrorView,
> {
    match after_failures(t.cues, ids) {
        Err(error) => Err(error),
        Ok((cues, changed)) => checked(with_cues(t, cues, changed)),
    }
}

/// Where the range before the `i`-th ends.
pub open spec fn end_before(ranges: Seq<RangeUsize>, i: int) -> int {
    if i <= 0 {
        0
    } else {
        ranges[i - 1].end as int
    }
}

/// Every range begins where the one before it ends and holds at least a word.
pub open spec fn contiguous(ranges: Seq<RangeUsize>, words: int) -> bool {
    forall|i: int|
        0 <= i < ranges.len() ==> {
            &&& ranges[i].start == #[trigger] end_before(ranges, i)
            &&& ranges[i].start < ranges[i].end <= words
        }
}

/// Why a re-split is refused, if it is.
pub open spec fn split_error(t: TranscriptView, ranges: Seq<RangeUsize>) -> Option<DomainErrorView> {
    if t.timeline_source != TimelineSource::AsrWords {
        Some(DomainErrorView::InvalidArgument("LLM split requires an ASR word timeline"@))
    } else if ranges.len() == 0 && t.words.len() > 0 {
        Some(DomainErrorView::InvalidArgument("LLM split must retain every word"@))
    } else if !contiguous(ranges, t.words.len() as int) {
        Some(
            DomainErrorView::InvalidArgument(
                "LLM split ranges must be contiguous and cover the word timeline"@,
            ),
        )
    } else if end_before(ranges, ranges.len() as int) != t.words.len() {
        Some(
            DomainErrorView::InvalidArgument(
                "LLM split ranges do not cover the complete word timeline"@,
            ),
        )
    } else {
        t.timeline_error()
    }
}

/// The identifier of the `i`-th cue of a re-split.
pub open spec fn fresh_cue_id(i: int) -> u32 {
    if i + 1 <= u32::MAX {
        (i + 1) as u32
    } else {
        u32::MAX
    }
}

/// `cue` is a fresh cue of a re-split: the words of its range, joined.
pub open spec fn is_split_cue(
    cue: Cue,
    words: Seq<Word>,
    range: RangeUsize,
    id: u32,
    request_id: Seq<char>,
) -> bool {
    &&& cue.id == id
    &&& cue.word_range == Some(range)
    &&& cue.imported_start_ms is None
    &&& cue.imported_end_ms is None
    &&& cue.text@ == words_joined(word_texts(words.subrange(range.start as int, range.end as int)))
    &&& cue.translation is None
    &&& cue.flags == CueFlags::none()
    &&& cue.text_origin matches Some(FieldOrigin::Llm { request_id: id }) && id@ == request_id
    &&& cue.translation_origin is None
    &&& cue.text_revision == 0
    &&& cue.translation_revision == 0
}

/// `out` is `t` cut anew into `ranges`.
pub open spec fn is_split(
    t: TranscriptView,
    ranges: Seq<RangeUsize>,
    request_id: Seq<char>,
    out: TranscriptView,
) -> bool {
    &&& out == TranscriptView {
        cues: out.cues,
        next_cue_id: fresh_cue_id(ranges.len() as int),
        revision: bumped(t.revision),
        ..t
    }
    &&& out.cues.len() == ranges.len()
    &&& forall|i: int|
        0 <= i < ranges.len() ==> is_split_cue(
            #[trigger] out.cues[i],
            t.words,
            ranges[i],
            fresh_cue_id(i),
            request_id,
        )
}

fn cut_cue(words: &Vec<Word>, range: RangeUsize, id: u32, request_id: &str) -> (cue: Cue)
    requires
        range.start < range.end <= words.len(),
    ensures
        is_split_cue(cue, words@, range, id, request_id@),
{
    let words = slice_subrange(words.as_slice(), range.start, range.end);
    Cue {
        id,
        word_range: Some(range),
        imported_start_ms: None,
        imported_end_ms: None,
        text: join_word_texts(words),
        translation: None,
        flags: CueFlags::default(),
        text_origin: Some(FieldOrigin::Llm { request_id: request_id.to_owned() }),
        translation_origin: None,
        text_revision: 0,
        translation_revision: 0,
    }
}

/// One more range extends a contiguous run.
proof fn lemma_contiguous_step(ranges: Seq<RangeUsize>, words: int, i: int)
    requires
        0 <= i < ranges.len(),
        contiguous(ranges.take(i), words),
        ranges[i].start == end_before(ranges, i),
        ranges[i].start < ranges[i].end <= words,
    ensures
        contiguous(ranges.take(i + 1), words),
{
    assert forall|k: int| 0 <= k < i + 1 implies {
        &&& ranges.take(i + 1)[k].start == #[trigger] end_before(ranges.take(i + 1), k)
        &&& ranges.take(i + 1)[k].start < ranges.take(i + 1)[k].end <= words
    } by {
        if k < i {
            assert(ranges.take(i)[k] == ranges[k]);
            assert(end_before(ranges.take(i), k) == end_before(ranges.take(i + 1), k));
        }
    }
}

proof fn lemma_end_grows(ranges: Seq<RangeUsize>, words: int, i: int, j: int)
    requires
        contiguous(ranges, words),
        0 <= i < j < ranges.len(),
    ensures
        ranges[i].end <= ranges[j].start,
    decreases j - i,
{
    assert(ranges[j].start == end_before(ranges, j));
    if i < j - 1 {
        lemma_end_grows(ranges, words, i, j - 1);
        assert(ranges[j - 1].start == end_before(ranges, j - 1));
    }
}

proof fn lemma_split_is_valid(
    t: TranscriptView,
    ranges: Seq<RangeUsize>,
    request_id: Seq<char>,
    out: TranscriptView,
)
    requires
        split_error(t, ranges) is None,
        is_split(t, ranges, request_id, out),
    ensures
        out.valid(),
{
    law_no_error_means_valid(TranscriptView { cues: seq![], ..t });
    let bare = TranscriptView { cues: seq![], ..t };
    lemma_timeline_error_without_cues(t, bare);
    assert(bare.valid());
    assert forall|i: int| 0 <= i < out.cues.len() implies out.range_in_words(#[trigger] out.cues[i])
        && out.times(out.cues[i]) is Ok by {
        assert(ranges[i].start == end_before(ranges, i));
    }
    assert forall|i: int, j: int| 0 <= i < j < out.cues.len() implies TranscriptView::apart(
        #[trigger] out.cues[i],
        #[trigger] out.cues[j],
    ) by {
        lemma_end_grows(ranges, t.words.len() as int, i, j);
    }
    assert forall|i: int| 0 <= i < out.words.len() implies (#[trigger] out.words[i]).valid() by {
        assert(bare.words[i].valid());
    }
    assert forall|i: int, j: int| 0 <= i <= j < out.words.len() implies (
    #[trigger] out.words[i]).start_ms <= (#[trigger] out.words[j]).start_ms by {
        assert(bare.words[i].start_ms <= bare.words[j].start_ms);
    }
}

/// Errors of the timeline depend on the version and the words alone.
proof fn lemma_timeline_error_without_cues(a: TranscriptView, b: TranscriptView)
    requires
        a.schema_version == b.schema_version,
        a.words == b.words,
    ensures
        a.timeline_error() == b.timeline_error(),
{
    lemma_word_error_same(a, b, 0);
    lemma_order_error_same(a, b, 1);
}

proof fn lemma_word_error_same(a: TranscriptView, b: TranscriptView, i: int)
    requires
        a.words == b.words,
    ensures
        a.word_error(i) == b.word_error(i),
    decreases a.words.len() - i,
{
    if 0 <= i < a.words.len() {
        lemma_word_error_same(a, b, i + 1);
    }
}

proof fn lemma_order_error_same(a: TranscriptView, b: TranscriptView, i: int)
    requires
        a.words == b.words,
    ensures
        a.order_error(i) == b.order_error(i),
    decreases a.words.len() - i,
{
    if 1 <= i < a.words.len() {
        lemma_order_error_same(a, b, i + 1);
    }
}

impl Transcript {
    /// Apply validated source or translation texts.
    pub fn apply_llm_text(&self, binding: &LlmResultBinding, updates: &[CueTextUpdate]) -> (result:
        DomainResult<Self>)
        ensures
            gives(result, llm_text_outcome(self@, *binding, updates@)),
    {
        if self.revision != binding.transcript_revision {
            return Err(
                DomainError::StaleRevision {
                    expected: binding.transcript_revision,
                    actual: self.revision,
                },
            );
        }
        let mut out = self.clone();
        let mut changed = false;
        let mut i: usize = 0;
        assert(updates@.take(0) =~= seq![]);
        while i < updates.len()
            invariant
                i <= updates.len(),
                self.revision == binding.transcript_revision,
                out@ == (TranscriptView { cues: out@.cues, ..self@ }),
                after_updates(self@.cues, *binding, updates@.take(i as int)) == Ok::<
                    (Seq<Cue>, bool),
                    DomainErrorView,
                >((out@.cues, changed)),
            decreases updates.len() - i,
        {
            let update = &updates[i];
            proof {
                assert(updates@.take(i + 1).drop_last() =~= updates@.take(i as int));
                lemma_updates_fail_early(self@.cues, *binding, updates@, i + 1);
            }
            let p: usize = find_cue(&out.cues, update.cue_id)?;
            let revision: u64 = match binding.field {
                LlmTextField::Source => out.cues[p].text_revision,
                LlmTextField::Translation => out.cues[p].translation_revision,
            };
            if revision != update.expected_field_revision {
                return Err(
                    DomainError::StaleRevision {
                        expected: update.expected_field_revision,
                        actual: revision,
                    },
                );
            }
            let protected = match binding.field {
                LlmTextField::Source => is_user_origin(&out.cues[p].text_origin),
                LlmTextField::Translation => is_user_origin(&out.cues[p].translation_origin),
            };
            if !protected {
                let origin = FieldOrigin::Llm { request_id: binding.request_id.clone() };
                let written = write_field(&out.cues[p], binding.field, update.value.clone(), origin);
                out.cues.set(p, written);
                changed = true;
            }
            i += 1;
        }
        assert(updates@.take(i as int) =~= updates@);
        if changed {
            out.bump_revision();
        }
        check(out)
    }

    /// Cut the cues anew. The ranges are positions of words and have to cover
    /// the whole timeline exactly once.
    pub fn apply_llm_split(&self, ranges: &[RangeUsize], request_id: &str) -> (result: DomainResult<
        Self,
    >)
        ensures
            match result {
                Ok(out) => split_error(self@, ranges@) is None && is_split(
                    self@,
                    ranges@,
                    request_id@,
                    out@,
                ) && out@.valid(),
                Err(error) => split_error(self@, ranges@) == Some(error@),
            },
    {
        if self.timeline_source != TimelineSource::AsrWords {
            return Err(DomainError::invalid("LLM split requires an ASR word timeline"));
        }
        if ranges.len() == 0 && self.words.len() > 0 {
            return Err(DomainError::invalid("LLM split must retain every word"));
        }
        let mut previous_end: usize = 0;
        let mut out = self.clone();
        out.cues = Vec::new();
        out.next_cue_id = 1;
        let mut i: usize = 0;
        while i < ranges.len()
            invariant
                i <= ranges.len(),
                self@.timeline_source == TimelineSource::AsrWords,
                ranges@.len() > 0 || self@.words.len() == 0,
                previous_end == end_before(ranges@, i as int),
                previous_end <= self@.words.len(),
                contiguous(ranges@.take(i as int), self@.words.len() as int),
                out@ == (TranscriptView {
                    cues: out@.cues,
                    next_cue_id: fresh_cue_id(i as int),
                    ..self@
                }),
                out@.cues.len() == i,
                forall|k: int|
                    0 <= k < i ==> is_split_cue(
                        #[trigger] out@.cues[k],
                        self@.words,
                        ranges@[k],
                        fresh_cue_id(k),
                        request_id@,
                    ),
            decreases ranges.len() - i,
        {
            let range: RangeUsize = ranges[i];
            if range.start != previous_end || range.start >= range.end || range.end
                > self.words.len() {
                assert(!contiguous(ranges@, self@.words.len() as int)) by {
                    assert(range.start != end_before(ranges@, i as int) || range.start
                        >= range.end || range.end > self@.words.len());
                }
                return Err(
                    DomainError::invalid(
                        "LLM split ranges must be contiguous and cover the word timeline",
                    ),
                );
            }
            let id: u32 = out.allocate_cue_id();
            out.cues.push(cut_cue(&self.words, range, id, request_id));
            previous_end = range.end;
            proof {
                lemma_contiguous_step(ranges@, self@.words.len() as int, i as int);
            }
            i += 1;
        }
        assert(ranges@.take(i as int) =~= ranges@);
        if previous_end != self.words.len() {
            return Err(
                DomainError::invalid("LLM split ranges do not cover the complete word timeline"),
            );
        }
        out.bump_revision();
        assert(is_split(self@, ranges@, request_id@, out@));
        match out.validate() {
            Ok(_) => {
                proof {
                    law_no_error_means_valid(out@);
                    lemma_timeline_error_without_cues(self@, out@);
                }
                Ok(out)
            },
            Err(error) => {
                proof {
                    lemma_timeline_error_without_cues(self@, out@);
                    law_no_error_means_valid(out@);
                    if self@.timeline_error() is None {
                        lemma_split_is_valid(self@, ranges@, request_id@, out@);
                    }
                }
                Err(error)
            },
        }
    }

    pub fn edit_text(&self, cue_id: u32, expected_revision: u64, text: String) -> (result:
        DomainResult<Self>)
        ensures
            gives(
                result,
                edit_outcome(self@, cue_id, expected_revision, LlmTextField::Source, text),
            ),
    {
        self.edit_field(cue_id, expected_revision, LlmTextField::Source, text)
    }

    pub fn edit_translation(
        &self,
        cue_id: u32,
        expected_revision: u64,
        translation: String,
    ) -> (result: DomainResult<Self>)
        ensures
            gives(
                result,
                edit_outcome(
                    self@,
                    cue_id,
                    expected_revision,
                    LlmTextField::Translation,
                    translation,
                ),
            ),
    {
        self.edit_field(cue_id, expected_revision, LlmTextField::Translation, translation)
    }

    fn edit_field(
        &self,
        cue_id: u32,
        expected_revision: u64,
        field: LlmTextField,
        value: String,
    ) -> (result: DomainResult<Self>)
        ensures
            gives(result, edit_outcome(self@, cue_id, expected_revision, field, value)),
    {
        if self.revision != expected_revision {
            return Err(
                DomainError::StaleRevision { expected: expected_revision, actual: self.revision },
            );
        }
        let mut out = self.clone();
        let p: usize = find_cue(&out.cues, cue_id)?;
        let written = write_field(&out.cues[p], field, value, FieldOrigin::User);
        out.cues.set(p, written);
        out.bump_revision();
        check(out)
    }

    /// Mark cues whose language-model step was given up. Their texts stay.
    pub fn mark_llm_failed(&self, cue_ids: &[u32]) -> (result: DomainResult<Self>)
        ensures
            gives(result, failure_outcome(self@, cue_ids@)),
    {
        let mut out = self.clone();
        let mut changed = false;
        let mut i: usize = 0;
        assert(cue_ids@.take(0) =~= seq![]);
        while i < cue_ids.len()
            invariant
                i <= cue_ids.len(),
                out@ == (TranscriptView { cues: out@.cues, ..self@ }),
                after_failures(self@.cues, cue_ids@.take(i as int)) == Ok::<
                    (Seq<Cue>, bool),
                    DomainErrorView,
                >((out@.cues, changed)),
            decreases cue_ids.len() - i,
        {
            proof {
                assert(cue_ids@.take(i + 1).drop_last() =~= cue_ids@.take(i as int));
                lemma_failures_fail_early(self@.cues, cue_ids@, i + 1);
            }
            let p: usize = find_cue(&out.cues, cue_ids[i])?;
            if !out.cues[p].flags.llm_failed {
                let mut marked = out.cues[p].clone();
                marked.flags.llm_failed = true;
                out.cues.set(p, marked);
                changed = true;
            } else {
                assert(out@.cues.update(p as int, with_failure(out@.cues[p as int])) =~= out@.cues);
            }
            i += 1;
        }
        assert(cue_ids@.take(i as int) =~= cue_ids@);
        if changed {
            out.bump_revision();
        }
        check(out)
    }
}

fn is_user_origin(origin: &Option<FieldOrigin>) -> (answer: bool)
    ensures
        answer == (*origin == Some(FieldOrigin::User)),
{
    match origin {
        Some(origin) => origin.is_user(),
        None => false,
    }
}

/// An error in a prefix of the updates is the error of all of them.
proof fn lemma_updates_fail_early(
    cues: Seq<Cue>,
    binding: LlmResultBinding,
    updates: Seq<CueTextUpdate>,
    n: int,
)
    requires
        0 <= n <= updates.len(),
    ensures
        after_updates(cues, binding, updates.take(n)) is Err ==> after_updates(
            cues,
            binding,
            updates,
        ) == after_updates(cues, binding, updates.take(n)),
    decreases updates.len() - n,
{
    if n < updates.len() {
        lemma_updates_fail_early(cues, binding, updates, n + 1);
        assert(updates.take(n + 1).drop_last() =~= updates.take(n));
    } else {
        assert(updates.take(n) =~= updates);
    }
}

proof fn lemma_failures_fail_early(cues: Seq<Cue>, ids: Seq<u32>, n: int)
    requires
        0 <= n <= ids.len(),
    ensures
        after_failures(cues, ids.take(n)) is Err ==> after_failures(cues, ids) == after_failures(
            cues,
            ids.take(n),
        ),
    decreases ids.len() - n,
{
    if n < ids.len() {
        lemma_failures_fail_early(cues, ids, n + 1);
        assert(ids.take(n + 1).drop_last() =~= ids.take(n));
    } else {
        assert(ids.take(n) =~= ids);
    }
}

} // verus!
