//! What holds of every revision of a transcript.
use vstd::prelude::*;

use crate::error::DomainErrorView;
use crate::text::decimal;

use super::revision::{
    after_failures, after_updates, contiguous, cue_position, edit_outcome, end_before,
    failure_outcome, is_split, llm_text_outcome, split_error, user_owned, with_cues,
    with_failure, with_field,
};
use super::text_joiner::{word_texts, words_joined};
use super::transcript::{
    asr_transcript, bumped, imported_transcript, law_no_error_means_valid, max_cue_id, Cue,
    CueFlags, CueTextUpdate, EngineFingerprint, FieldOrigin, LlmResultBinding, LlmTextField, RangeUsize,
    TimelineSource, TranscriptView, Word,
};

verus! {

/// Two cues stand at the same place: same identifier, words and times.
pub open spec fn same_place(a: Cue, b: Cue) -> bool {
    &&& a.id == b.id
    &&& a.word_range == b.word_range
    &&& a.imported_start_ms == b.imported_start_ms
    &&& a.imported_end_ms == b.imported_end_ms
}

/// The cues of both sequences stand at the same places.
pub open spec fn same_places(a: Seq<Cue>, b: Seq<Cue>) -> bool {
    &&& a.len() == b.len()
    &&& forall|i: int| 0 <= i < a.len() ==> same_place(#[trigger] a[i], b[i])
}

/// `out` differs from `t` in texts, flags and revisions at most.
pub open spec fn same_timeline(t: TranscriptView, out: TranscriptView) -> bool {
    &&& out.schema_version == t.schema_version
    &&& out.source_hash == t.source_hash
    &&& out.language == t.language
    &&& out.engine == t.engine
    &&& out.words == t.words
    &&& out.next_cue_id == t.next_cue_id
    &&& out.timeline_source == t.timeline_source
    &&& same_places(t.cues, out.cues)
}

proof fn lemma_position_in_bounds(cues: Seq<Cue>, id: u32, from: int)
    requires
        0 <= from,
    ensures
        cue_position(cues, id, from) matches Some(p) ==> from <= p < cues.len() && cues[p].id == id,
    decreases cues.len() - from,
{
    if from < cues.len() {
        lemma_position_in_bounds(cues, id, from + 1);
    }
}

proof fn lemma_updates_keep_places(
    cues: Seq<Cue>,
    binding: LlmResultBinding,
    updates: Seq<CueTextUpdate>,
)
    ensures
        after_updates(cues, binding, updates) matches Ok((after, _)) ==> {
            &&& same_places(cues, after)
            &&& forall|i: int|
                0 <= i < cues.len() && user_owned(#[trigger] cues[i], binding.field) ==> after[i]
                    == cues[i]
        },
    decreases updates.len(),
{
    if updates.len() > 0 {
        lemma_updates_keep_places(cues, binding, updates.drop_last());
        if let Ok((before, _)) = after_updates(cues, binding, updates.drop_last()) {
            lemma_position_in_bounds(before, updates.last().cue_id, 0);
        }
    }
}

/// A language-model result changes texts only: words, identifiers and times
/// stay, and so does everything in a cue whose field the user owns.
pub proof fn law_llm_text_respects_timeline_and_user(
    t: TranscriptView,
    binding: LlmResultBinding,
    updates: Seq<CueTextUpdate>,
)
    ensures
        llm_text_outcome(t, binding, updates) matches Ok(out) ==> {
            &&& same_timeline(t, out)
            &&& out.valid()
            &&& forall|i: int|
                0 <= i < t.cues.len() && user_owned(#[trigger] t.cues[i], binding.field)
                    ==> out.cues[i] == t.cues[i]
        },
{
    lemma_updates_keep_places(t.cues, binding, updates);
    if let Ok(out) = llm_text_outcome(t, binding, updates) {
        law_no_error_means_valid(out);
    }
}

/// A user's edit is owned by the user afterwards and changes nothing but the
/// field of the one cue.
pub proof fn law_user_edit_owns_the_field(
    t: TranscriptView,
    cue_id: u32,
    revision: u64,
    field: LlmTextField,
    value: String,
)
    ensures
        edit_outcome(t, cue_id, revision, field, value) matches Ok(out) ==> {
            &&& same_timeline(t, out)
            &&& out.valid()
            &&& out.revision == bumped(t.revision)
            &&& cue_position(t.cues, cue_id, 0) matches Some(p) && {
                &&& user_owned(out.cues[p], field)
                &&& forall|i: int|
                    0 <= i < t.cues.len() && i != p ==> #[trigger] out.cues[i] == t.cues[i]
            }
        },
{
    lemma_position_in_bounds(t.cues, cue_id, 0);
    if let Ok(out) = edit_outcome(t, cue_id, revision, field, value) {
        law_no_error_means_valid(out);
    }
}

/// A language-model result that was asked for before a user's edit is refused
/// as stale after it. The one exception is the last revision number there is,
/// which no edit can raise.
pub proof fn law_edit_makes_pending_results_stale(
    t: TranscriptView,
    cue_id: u32,
    field: LlmTextField,
    value: String,
    binding: LlmResultBinding,
    updates: Seq<CueTextUpdate>,
)
    requires
        binding.transcript_revision == t.revision,
        t.revision < u64::MAX,
    ensures
        edit_outcome(t, cue_id, t.revision, field, value) matches Ok(out) ==> llm_text_outcome(
            out,
            binding,
            updates,
        ) == Err::<TranscriptView, DomainErrorView>(
            DomainErrorView::StaleRevision { expected: t.revision, actual: (t.revision + 1) as u64 },
        ),
{
}

/// An edit names the revision it was made on; on any other it is refused.
pub proof fn law_edit_needs_current_revision(
    t: TranscriptView,
    cue_id: u32,
    revision: u64,
    field: LlmTextField,
    value: String,
)
    requires
        revision != t.revision,
    ensures
        edit_outcome(t, cue_id, revision, field, value) == Err::<TranscriptView, DomainErrorView>(
            DomainErrorView::StaleRevision { expected: revision, actual: t.revision },
        ),
{
}

/// The cue apart from its failure mark.
pub open spec fn same_but_failure(a: Cue, b: Cue) -> bool {
    b == a || b == with_failure(a)
}

proof fn lemma_failures_keep_cues(cues: Seq<Cue>, ids: Seq<u32>)
    ensures
        after_failures(cues, ids) matches Ok((after, changed)) ==> {
            &&& after.len() == cues.len()
            &&& forall|i: int| 0 <= i < cues.len() ==> same_but_failure(cues[i], #[trigger] after[i])
            &&& !changed ==> after == cues
        },
    decreases ids.len(),
{
    if ids.len() > 0 {
        lemma_failures_keep_cues(cues, ids.drop_last());
        if let Ok((before, _)) = after_failures(cues, ids.drop_last()) {
            lemma_position_in_bounds(before, ids.last(), 0);
            if let Some(p) = cue_position(before, ids.last(), 0) {
                if before[p].flags.llm_failed {
                    assert(before.update(p, with_failure(before[p])) =~= before);
                }
            }
        }
    }
}

/// Marking cues as failed keeps every text and translation.
pub proof fn law_failure_marks_keep_texts(t: TranscriptView, ids: Seq<u32>)
    ensures
        failure_outcome(t, ids) matches Ok(out) ==> {
            &&& out.words == t.words
            &&& out.cues.len() == t.cues.len()
            &&& forall|i: int|
                0 <= i < t.cues.len() ==> (#[trigger] out.cues[i]).text == t.cues[i].text
                    && out.cues[i].translation == t.cues[i].translation
            &&& out.valid()
        },
{
    lemma_failures_keep_cues(t.cues, ids);
    if let Ok(out) = failure_outcome(t, ids) {
        law_no_error_means_valid(out);
        assert forall|i: int| 0 <= i < t.cues.len() implies (#[trigger] out.cues[i]).text
            == t.cues[i].text && out.cues[i].translation == t.cues[i].translation by {
            assert(same_but_failure(t.cues[i], out.cues[i]));
        }
    }
}

proof fn lemma_same_ids_same_position(a: Seq<Cue>, b: Seq<Cue>, id: u32, from: int)
    requires
        a.len() == b.len(),
        forall|i: int| 0 <= i < a.len() ==> (#[trigger] a[i]).id == b[i].id,
        0 <= from,
    ensures
        cue_position(a, id, from) == cue_position(b, id, from),
    decreases a.len() - from,
{
    if from < a.len() {
        assert(a[from].id == b[from].id);
        lemma_same_ids_same_position(a, b, id, from + 1);
    }
}

/// The cue `id` is there and marked as failed.
pub open spec fn marked(cues: Seq<Cue>, id: u32) -> bool {
    cue_position(cues, id, 0) matches Some(p) && cues[p].flags.llm_failed
}

proof fn lemma_failures_are_marked(cues: Seq<Cue>, ids: Seq<u32>)
    ensures
        after_failures(cues, ids) matches Ok((after, _)) ==> forall|k: int|
            0 <= k < ids.len() ==> marked(after, #[trigger] ids[k]),
    decreases ids.len(),
{
    if ids.len() > 0 {
        let front = ids.drop_last();
        lemma_failures_are_marked(cues, front);
        if let Ok((after, _)) = after_failures(cues, ids) {
            let before = after_failures(cues, front)->Ok_0.0;
            let p = cue_position(before, ids.last(), 0)->0;
            lemma_position_in_bounds(before, ids.last(), 0);
            assert(after == before.update(p, with_failure(before[p])));
            assert forall|k: int| 0 <= k < ids.len() implies marked(after, #[trigger] ids[k]) by {
                lemma_same_ids_same_position(before, after, ids[k], 0);
                lemma_position_in_bounds(before, ids[k], 0);
                if k < front.len() {
                    assert(marked(before, front[k]));
                }
            }
        }
    }
}

proof fn lemma_marked_cues_stay(cues: Seq<Cue>, ids: Seq<u32>)
    requires
        forall|k: int| 0 <= k < ids.len() ==> marked(cues, #[trigger] ids[k]),
    ensures
        after_failures(cues, ids) == Ok::<(Seq<Cue>, bool), DomainErrorView>((cues, false)),
    decreases ids.len(),
{
    if ids.len() > 0 {
        let front = ids.drop_last();
        assert forall|k: int| 0 <= k < front.len() implies marked(cues, #[trigger] front[k]) by {
            assert(marked(cues, ids[k]));
        }
        lemma_marked_cues_stay(cues, front);
        assert(marked(cues, ids[ids.len() - 1]));
        let p = cue_position(cues, ids.last(), 0)->0;
        lemma_position_in_bounds(cues, ids.last(), 0);
        assert(cues.update(p, with_failure(cues[p])) =~= cues);
    }
}

/// Marking cues as failed a second time changes nothing, not even the revision.
pub proof fn law_marking_twice_is_marking_once(t: TranscriptView, ids: Seq<u32>)
    ensures
        failure_outcome(t, ids) matches Ok(out) ==> failure_outcome(out, ids) == Ok::<
            TranscriptView,
            DomainErrorView,
        >(out),
{
    if let Ok(out) = failure_outcome(t, ids) {
        lemma_failures_are_marked(t.cues, ids);
        lemma_marked_cues_stay(out.cues, ids);
        assert(with_cues(out, out.cues, false) == out);
    }
}

/// The `i`-th cue shows the word `w`.
pub open spec fn shows(out: TranscriptView, i: int, w: int) -> bool {
    &&& 0 <= i < out.cues.len()
    &&& out.cues[i].word_range matches Some(range) && range.start <= w < range.end
}

proof fn lemma_word_is_covered(ranges: Seq<RangeUsize>, words: int, n: int, w: int) -> (i: int)
    requires
        contiguous(ranges, words),
        0 <= n <= ranges.len(),
        0 <= w < end_before(ranges, n),
    ensures
        0 <= i < n,
        ranges[i].start <= w < ranges[i].end,
    decreases n,
{
    if ranges[n - 1].start <= w {
        n - 1
    } else {
        assert(ranges[n - 1].start == end_before(ranges, n - 1));
        lemma_word_is_covered(ranges, words, n - 1, w)
    }
}

/// After a re-split every word belongs to exactly one cue.
pub proof fn law_split_covers_every_word_once(
    t: TranscriptView,
    ranges: Seq<RangeUsize>,
    request_id: Seq<char>,
    out: TranscriptView,
    w: int,
)
    requires
        split_error(t, ranges) is None,
        is_split(t, ranges, request_id, out),
        out.valid(),
        0 <= w < t.words.len(),
    ensures
        out.words == t.words,
        exists|i: int| #[trigger] shows(out, i, w),
        forall|i: int, j: int|
            #[trigger] shows(out, i, w) && #[trigger] shows(out, j, w) ==> i == j,
{
    let i = lemma_word_is_covered(ranges, t.words.len() as int, ranges.len() as int, w);
    assert(shows(out, i, w)) by {
        assert(out.cues[i].word_range == Some(ranges[i]));
    }
    assert forall|i: int, j: int| #[trigger] shows(out, i, w) && #[trigger] shows(out, j, w) implies i
        == j by {
        if i < j {
            assert(TranscriptView::apart(out.cues[i], out.cues[j]));
        } else if j < i {
            assert(TranscriptView::apart(out.cues[j], out.cues[i]));
        }
    }
}

/// A cue of recognized words is shown from the start of its first word to the
/// end of its last word. A cue of one word is shown as long as the word.
pub proof fn law_cues_last_as_long_as_their_words(t: TranscriptView, cue: Cue, range: RangeUsize)
    requires
        t.timeline_source == TimelineSource::AsrWords,
        cue.word_range == Some(range),
        range.start < range.end <= t.words.len(),
    ensures
        t.times(cue) matches Ok((start, end)) && start == t.words[range.start as int].start_ms
            && end == t.words[range.end - 1].end_ms,
{
}

/// An imported cue is shown at the times that it came with, whatever words there
/// are, and is refused without them or where they are the wrong way round.
pub proof fn law_imported_cues_keep_their_times(t: TranscriptView, cue: Cue)
    requires
        t.timeline_source == TimelineSource::ImportedCue,
    ensures
        forall|start: u64, end: u64|
            cue.imported_start_ms == Some(start) && cue.imported_end_ms == Some(end) && start <= end
                ==> t.times(cue) == Ok::<(u64, u64), DomainErrorView>((start, end)),
        t.times(cue) matches Ok((start, end)) ==> cue.imported_start_ms == Some(start)
            && cue.imported_end_ms == Some(end) && start <= end,
{
}

/// Cues whose words do not overlap in time are not shown at the same time, and
/// later cues do not start earlier.
pub proof fn law_cue_times_follow_the_words(t: TranscriptView, i: int, j: int)
    requires
        t.valid(),
        t.timeline_source == TimelineSource::AsrWords,
        0 <= i < j < t.cues.len(),
    ensures
        t.cues[i].word_range is Some && t.cues[j].word_range is Some,
        t.times(t.cues[i]) is Ok && t.times(t.cues[j]) is Ok,
        t.times(t.cues[i])->Ok_0.0 <= t.times(t.cues[j])->Ok_0.0,
        t.words[t.cues[i].word_range->0.end - 1].end_ms
            <= t.words[t.cues[j].word_range->0.start as int].start_ms ==> t.times(
            t.cues[i],
        )->Ok_0.1 <= t.times(t.cues[j])->Ok_0.0,
{
    assert(t.times(t.cues[i]) is Ok);
    assert(t.times(t.cues[j]) is Ok);
    assert(TranscriptView::apart(t.cues[i], t.cues[j]));
    let a = t.cues[i].word_range->0;
    let b = t.cues[j].word_range->0;
    assert(t.words[a.start as int].start_ms <= t.words[b.start as int].start_ms);
}

/// A document passes validation exactly when it has a layout version, its words
/// end no earlier than they start, have a confidence from zero to one or none,
/// and start in order, and its cues have times and lie on words of their own,
/// in order.
pub proof fn law_validation_in_plain_terms(t: TranscriptView)
    ensures
        t.first_error() is None <==> {
            &&& t.schema_version != 0
            &&& forall|i: int|
                0 <= i < t.words.len() ==> (#[trigger] t.words[i]).start_ms <= t.words[i].end_ms && (
                t.words[i].prob.bits <= 0x3F80_0000 || t.words[i].prob.bits == 0x8000_0000
                    || t.words[i].prob.bits == 0xBF80_0000)
            &&& forall|i: int, j: int|
                0 <= i <= j < t.words.len() ==> (#[trigger] t.words[i]).start_ms <= (
                #[trigger] t.words[j]).start_ms
            &&& forall|i: int|
                0 <= i < t.cues.len() ==> ((#[trigger] t.cues[i]).word_range matches Some(range)
                    ==> range.start < range.end <= t.words.len())
            &&& forall|i: int|
                0 <= i < t.cues.len() ==> match t.timeline_source {
                    TimelineSource::AsrWords => (#[trigger] t.cues[i]).word_range is Some,
                    TimelineSource::ImportedCue => t.cues[i].imported_start_ms matches Some(start)
                        && t.cues[i].imported_end_ms matches Some(end) && start <= end,
                }
            &&& forall|i: int, j: int|
                0 <= i < j < t.cues.len() ==> ((#[trigger] t.cues[i]).word_range matches Some(a)
                    ==> ((#[trigger] t.cues[j]).word_range matches Some(b) ==> a.end <= b.start))
        },
{
    law_no_error_means_valid(t);
    assert forall|i: int| 0 <= i < t.words.len() implies (#[trigger] t.words[i]).valid() <==> (
    t.words[i].start_ms <= t.words[i].end_ms && (t.words[i].prob.bits <= 0x3F80_0000
        || t.words[i].prob.bits == 0x8000_0000 || t.words[i].prob.bits == 0xBF80_0000)) by {}
    assert forall|i: int| 0 <= i < t.cues.len() implies (t.range_in_words(#[trigger] t.cues[i])
        && t.times(t.cues[i]) is Ok) <==> ((t.cues[i].word_range matches Some(range) ==> range.start
        < range.end <= t.words.len()) && (match t.timeline_source {
        TimelineSource::AsrWords => t.cues[i].word_range is Some,
        TimelineSource::ImportedCue => t.cues[i].imported_start_ms matches Some(start)
            && t.cues[i].imported_end_ms matches Some(end) && start <= end,
    })) by {}
    assert forall|i: int, j: int| 0 <= i < j < t.cues.len() implies TranscriptView::apart(
        #[trigger] t.cues[i],
        #[trigger] t.cues[j],
    ) == (t.cues[i].word_range matches Some(a) ==> (t.cues[j].word_range matches Some(b) ==> a.end
        <= b.start)) by {}
}

/// An accepted edit holds the value that was given, in the cue that was named
/// and in the field that was named, and nowhere else. The field and the document
/// are one revision further, and the field is the user's.
pub proof fn law_edits_hold_what_was_typed(
    t: TranscriptView,
    cue_id: u32,
    revision: u64,
    value: String,
    p: int,
)
    requires
        0 <= p < t.cues.len(),
        t.cues[p].id == cue_id,
        forall|i: int| 0 <= i < p ==> (#[trigger] t.cues[i]).id != cue_id,
        t.revision < u64::MAX,
        t.cues[p].text_revision < u64::MAX,
        t.cues[p].translation_revision < u64::MAX,
    ensures
        edit_outcome(t, cue_id, revision, LlmTextField::Source, value) matches Ok(out) ==> {
            &&& revision == t.revision
            &&& out.revision == t.revision + 1
            &&& out.words == t.words
            &&& out.cues.len() == t.cues.len()
            &&& out.cues[p].text == value
            &&& out.cues[p].text_origin == Some(FieldOrigin::User)
            &&& out.cues[p].text_revision == t.cues[p].text_revision + 1
            &&& out.cues[p].flags == (CueFlags { user_edited_text: true, ..t.cues[p].flags })
            &&& out.cues[p].translation == t.cues[p].translation
            &&& out.cues[p].translation_origin == t.cues[p].translation_origin
            &&& out.cues[p].translation_revision == t.cues[p].translation_revision
            &&& out.cues[p].id == cue_id
            &&& out.cues[p].word_range == t.cues[p].word_range
            &&& forall|i: int| 0 <= i < t.cues.len() && i != p ==> #[trigger] out.cues[i] == t.cues[i]
        },
        edit_outcome(t, cue_id, revision, LlmTextField::Translation, value) matches Ok(out) ==> {
            &&& revision == t.revision
            &&& out.revision == t.revision + 1
            &&& out.words == t.words
            &&& out.cues.len() == t.cues.len()
            &&& out.cues[p].translation == Some(value)
            &&& out.cues[p].translation_origin == Some(FieldOrigin::User)
            &&& out.cues[p].translation_revision == t.cues[p].translation_revision + 1
            &&& out.cues[p].flags == (CueFlags { user_edited_translation: true, ..t.cues[p].flags })
            &&& out.cues[p].text == t.cues[p].text
            &&& out.cues[p].text_origin == t.cues[p].text_origin
            &&& out.cues[p].text_revision == t.cues[p].text_revision
            &&& out.cues[p].id == cue_id
            &&& out.cues[p].word_range == t.cues[p].word_range
            &&& forall|i: int| 0 <= i < t.cues.len() && i != p ==> #[trigger] out.cues[i] == t.cues[i]
        },
{
    lemma_first_position(t.cues, cue_id, p, 0);
}

/// An edit of a cue of a valid document, made on its revision, is accepted.
pub proof fn law_current_edits_are_accepted(
    t: TranscriptView,
    cue_id: u32,
    field: LlmTextField,
    value: String,
    p: int,
)
    requires
        t.valid(),
        0 <= p < t.cues.len(),
        t.cues[p].id == cue_id,
    ensures
        edit_outcome(t, cue_id, t.revision, field, value) is Ok,
{
    lemma_some_position(t.cues, cue_id, p, 0);
    let q = cue_position(t.cues, cue_id, 0)->0;
    lemma_position_in_bounds(t.cues, cue_id, 0);
    let cues = t.cues.update(q, with_field(t.cues[q], field, value, FieldOrigin::User));
    let out = with_cues(t, cues, true);
    assert forall|i: int| 0 <= i < out.cues.len() implies out.range_in_words(
        #[trigger] out.cues[i],
    ) && out.times(out.cues[i]) is Ok by {
        assert(t.range_in_words(t.cues[i]) && t.times(t.cues[i]) is Ok);
    }
    assert forall|i: int, j: int| 0 <= i < j < out.cues.len() implies TranscriptView::apart(
        #[trigger] out.cues[i],
        #[trigger] out.cues[j],
    ) by {
        assert(TranscriptView::apart(t.cues[i], t.cues[j]));
    }
    law_no_error_means_valid(out);
}

pub proof fn lemma_first_position(cues: Seq<Cue>, id: u32, p: int, from: int)
    requires
        0 <= from <= p < cues.len(),
        cues[p].id == id,
        forall|i: int| 0 <= i < p ==> (#[trigger] cues[i]).id != id,
    ensures
        cue_position(cues, id, from) == Some(p),
    decreases p - from,
{
    if from < p {
        lemma_first_position(cues, id, p, from + 1);
    }
}

proof fn lemma_some_position(cues: Seq<Cue>, id: u32, p: int, from: int)
    requires
        0 <= from <= p < cues.len(),
        cues[p].id == id,
    ensures
        cue_position(cues, id, from) is Some,
    decreases p - from,
{
    if from < p && cues[from].id != id {
        lemma_some_position(cues, id, p, from + 1);
    }
}

/// What a field of a cue holds.
pub open spec fn field_text(cue: Cue, field: LlmTextField) -> Option<String> {
    match field {
        LlmTextField::Source => Some(cue.text),
        LlmTextField::Translation => cue.translation,
    }
}

proof fn lemma_updates_write_one_field(
    cues: Seq<Cue>,
    binding: LlmResultBinding,
    updates: Seq<CueTextUpdate>,
)
    ensures
        after_updates(cues, binding, updates) matches Ok((after, _)) ==> {
            &&& after.len() == cues.len()
            &&& forall|i: int|
                0 <= i < cues.len() ==> (#[trigger] after[i]).id == cues[i].id && match binding.field {
                    LlmTextField::Source => after[i].translation == cues[i].translation
                        && after[i].translation_origin == cues[i].translation_origin
                        && after[i].translation_revision == cues[i].translation_revision,
                    LlmTextField::Translation => after[i].text == cues[i].text
                        && after[i].text_origin == cues[i].text_origin && after[i].text_revision
                        == cues[i].text_revision,
                }
            &&& forall|i: int|
                0 <= i < cues.len() && !user_owned(#[trigger] cues[i], binding.field)
                    ==> !user_owned(after[i], binding.field)
            &&& forall|i: int|
                0 <= i < cues.len() && (forall|u: int|
                    0 <= u < updates.len() ==> (#[trigger] updates[u]).cue_id != cues[i].id)
                    ==> #[trigger] after[i] == cues[i]
        },
    decreases updates.len(),
{
    if updates.len() > 0 {
        let front = updates.drop_last();
        lemma_updates_write_one_field(cues, binding, front);
        if let Ok((after, _)) = after_updates(cues, binding, updates) {
            let before = after_updates(cues, binding, front)->Ok_0.0;
            lemma_position_in_bounds(before, updates.last().cue_id, 0);
            assert forall|i: int|
                0 <= i < cues.len() && (forall|u: int|
                    0 <= u < updates.len() ==> (#[trigger] updates[u]).cue_id != cues[i].id)
                implies #[trigger] after[i] == cues[i] by {
                assert forall|u: int| 0 <= u < front.len() implies (#[trigger] front[u]).cue_id
                    != cues[i].id by {
                    assert(updates[u].cue_id != cues[i].id);
                }
                assert(before[i] == cues[i]);
                assert(updates[updates.len() - 1].cue_id != cues[i].id);
            }
        }
    }
}

proof fn lemma_updates_are_held(
    cues: Seq<Cue>,
    binding: LlmResultBinding,
    updates: Seq<CueTextUpdate>,
    u: int,
    p: int,
)
    requires
        after_updates(cues, binding, updates) is Ok,
        0 <= u < updates.len(),
        forall|v: int|
            u < v < updates.len() ==> (#[trigger] updates[v]).cue_id != updates[u].cue_id,
        0 <= p < cues.len(),
        cues[p].id == updates[u].cue_id,
        forall|i: int| 0 <= i < p ==> (#[trigger] cues[i]).id != updates[u].cue_id,
        !user_owned(cues[p], binding.field),
    ensures
        field_text(after_updates(cues, binding, updates)->Ok_0.0[p], binding.field) == Some(
            updates[u].value,
        ),
    decreases updates.len(),
{
    let front = updates.drop_last();
    let last = updates.last();
    lemma_updates_write_one_field(cues, binding, front);
    let before = after_updates(cues, binding, front)->Ok_0.0;
    lemma_position_in_bounds(before, last.cue_id, 0);
    if u == updates.len() - 1 {
        assert forall|i: int| 0 <= i < p implies (#[trigger] before[i]).id != last.cue_id by {
            assert(cues[i].id != last.cue_id);
        }
        lemma_first_position(before, last.cue_id, p, 0);
    } else {
        assert forall|v: int| u < v < front.len() implies (#[trigger] front[v]).cue_id
            != front[u].cue_id by {
            assert(updates[v].cue_id != updates[u].cue_id);
        }
        lemma_updates_are_held(cues, binding, front, u, p);
        assert(updates[updates.len() - 1].cue_id != updates[u].cue_id);
    }
}

/// An accepted result of the language model is in the document: the cue that an
/// update names holds its value, unless the user owns the field. The other
/// fields, and the cues that no update names, are as they were.
pub proof fn law_accepted_results_are_written(
    t: TranscriptView,
    binding: LlmResultBinding,
    updates: Seq<CueTextUpdate>,
    out: TranscriptView,
    u: int,
    p: int,
)
    requires
        llm_text_outcome(t, binding, updates) == Ok::<TranscriptView, DomainErrorView>(out),
        0 <= u < updates.len(),
        forall|v: int|
            u < v < updates.len() ==> (#[trigger] updates[v]).cue_id != updates[u].cue_id,
        0 <= p < t.cues.len(),
        t.cues[p].id == updates[u].cue_id,
        forall|i: int| 0 <= i < p ==> (#[trigger] t.cues[i]).id != updates[u].cue_id,
    ensures
        binding.transcript_revision == t.revision,
        binding.field == LlmTextField::Source && t.cues[p].text_origin != Some(FieldOrigin::User)
            ==> out.cues[p].text == updates[u].value,
        binding.field == LlmTextField::Translation && t.cues[p].translation_origin != Some(
            FieldOrigin::User,
        ) ==> out.cues[p].translation == Some(updates[u].value),
        binding.field == LlmTextField::Source && t.cues[p].text_origin == Some(FieldOrigin::User)
            ==> out.cues[p] == t.cues[p],
        binding.field == LlmTextField::Translation && t.cues[p].translation_origin == Some(
            FieldOrigin::User,
        ) ==> out.cues[p] == t.cues[p],
        forall|i: int|
            0 <= i < t.cues.len() && binding.field == LlmTextField::Source ==> (
            #[trigger] out.cues[i]).translation == t.cues[i].translation,
        forall|i: int|
            0 <= i < t.cues.len() && binding.field == LlmTextField::Translation ==> (
            #[trigger] out.cues[i]).text == t.cues[i].text,
        forall|i: int|
            0 <= i < t.cues.len() && (forall|v: int|
                0 <= v < updates.len() ==> (#[trigger] updates[v]).cue_id != t.cues[i].id)
                ==> #[trigger] out.cues[i] == t.cues[i],
        out.words == t.words,
        out.cues.len() == t.cues.len(),
{
    lemma_updates_write_one_field(t.cues, binding, updates);
    lemma_updates_keep_places(t.cues, binding, updates);
    if !user_owned(t.cues[p], binding.field) {
        lemma_updates_are_held(t.cues, binding, updates, u, p);
    }
}

/// Cues are marked as failed exactly where that was asked for.
pub proof fn law_failure_marks_are_exact(t: TranscriptView, ids: Seq<u32>, out: TranscriptView)
    requires
        failure_outcome(t, ids) == Ok::<TranscriptView, DomainErrorView>(out),
        forall|i: int, j: int|
            0 <= i < j < t.cues.len() ==> (#[trigger] t.cues[i]).id != (#[trigger] t.cues[j]).id,
    ensures
        forall|i: int|
            0 <= i < t.cues.len() ==> ((#[trigger] out.cues[i]).flags.llm_failed <==> (
            t.cues[i].flags.llm_failed || ids.contains(t.cues[i].id))),
        forall|k: int|
            0 <= k < ids.len() ==> exists|i: int|
                0 <= i < t.cues.len() && t.cues[i].id == #[trigger] ids[k],
{
    lemma_failures_keep_cues(t.cues, ids);
    lemma_failures_are_marked(t.cues, ids);
    lemma_only_named_cues_are_marked(t.cues, ids);
    assert forall|i: int| 0 <= i < t.cues.len() && ids.contains(t.cues[i].id) implies (
    #[trigger] out.cues[i]).flags.llm_failed by {
        let k = choose|k: int| 0 <= k < ids.len() && ids[k] == t.cues[i].id;
        assert(marked(out.cues, ids[k]));
        lemma_position_in_bounds(out.cues, ids[k], 0);
        let p = cue_position(out.cues, ids[k], 0)->0;
        assert(same_but_failure(t.cues[p], out.cues[p]));
        assert(t.cues[p].id == t.cues[i].id);
    }
    assert forall|i: int| 0 <= i < t.cues.len() && t.cues[i].flags.llm_failed implies (
    #[trigger] out.cues[i]).flags.llm_failed by {
        assert(same_but_failure(t.cues[i], out.cues[i]));
    }
    assert forall|k: int| 0 <= k < ids.len() implies exists|i: int|
        0 <= i < t.cues.len() && t.cues[i].id == #[trigger] ids[k] by {
        assert(marked(out.cues, ids[k]));
        lemma_position_in_bounds(out.cues, ids[k], 0);
        let p = cue_position(out.cues, ids[k], 0)->0;
        assert(same_but_failure(t.cues[p], out.cues[p]));
    }
}

proof fn lemma_only_named_cues_are_marked(cues: Seq<Cue>, ids: Seq<u32>)
    ensures
        after_failures(cues, ids) matches Ok((after, _)) ==> after.len() == cues.len() && forall|
            i: int,
        |
            0 <= i < cues.len() && (#[trigger] after[i]).flags.llm_failed
                ==> cues[i].flags.llm_failed || ids.contains(cues[i].id),
    decreases ids.len(),
{
    if ids.len() > 0 {
        let front = ids.drop_last();
        lemma_only_named_cues_are_marked(cues, front);
        lemma_failures_keep_cues(cues, front);
        if let Ok((after, _)) = after_failures(cues, ids) {
            let before = after_failures(cues, front)->Ok_0.0;
            lemma_position_in_bounds(before, ids.last(), 0);
            assert forall|i: int| 0 <= i < cues.len() && (#[trigger] after[i]).flags.llm_failed
                implies cues[i].flags.llm_failed || ids.contains(cues[i].id) by {
                if before[i].flags.llm_failed {
                    if front.contains(cues[i].id) {
                        let k = choose|k: int| 0 <= k < front.len() && front[k] == cues[i].id;
                        assert(ids[k] == cues[i].id);
                    }
                } else {
                    assert(same_but_failure(cues[i], before[i]));
                    assert(ids[ids.len() - 1] == cues[i].id);
                }
            }
        }
    }
}

/// A recognized transcript begins with its words and no cues.
pub proof fn law_recognized_transcripts_hold_their_words(
    source_hash: Seq<char>,
    engine: EngineFingerprint,
    words: Seq<Word>,
)
    ensures
        ({
            let t = asr_transcript(source_hash, engine, words);
            &&& t.words == words && t.cues.len() == 0 && t.next_cue_id == 1
            &&& t.schema_version == 1 && t.revision == 1
            &&& t.source_hash == source_hash && t.engine == engine && t.language is None
            &&& t.timeline_source == TimelineSource::AsrWords
        }),
{
}

proof fn lemma_max_cue_id(cues: Seq<Cue>)
    ensures
        forall|i: int| 0 <= i < cues.len() ==> (#[trigger] cues[i]).id <= max_cue_id(cues),
        cues.len() > 0 ==> exists|i: int|
            0 <= i < cues.len() && (#[trigger] cues[i]).id == max_cue_id(cues),
    decreases cues.len(),
{
    if cues.len() > 0 {
        let front = cues.drop_last();
        lemma_max_cue_id(front);
        assert forall|i: int| 0 <= i < cues.len() implies (#[trigger] cues[i]).id <= max_cue_id(
            cues,
        ) by {
            if i < front.len() {
                assert(front[i] == cues[i]);
            }
        }
        if max_cue_id(front) < cues.last().id || front.len() == 0 {
            assert(cues[cues.len() - 1].id == cues.last().id);
        } else {
            let i = choose|i: int|
                0 <= i < front.len() && (#[trigger] front[i]).id == max_cue_id(front);
            assert(cues[i].id == max_cue_id(cues));
        }
    }
}

/// An imported transcript has the cues that it came with, no words, and a next
/// identifier that none of the cues has: the one behind the greatest.
pub proof fn law_imported_transcripts_hold_their_cues(
    source_hash: Seq<char>,
    cues: Seq<Cue>,
    t: TranscriptView,
)
    requires
        imported_transcript(source_hash, cues, t),
    ensures
        t.cues == cues && t.words.len() == 0 && t.source_hash == source_hash,
        t.schema_version == 1 && t.revision == 1 && t.language is None,
        t.timeline_source == TimelineSource::ImportedCue,
        (forall|i: int| 0 <= i < cues.len() ==> (#[trigger] cues[i]).id < u32::MAX) ==> forall|i: int|
            0 <= i < cues.len() ==> (#[trigger] cues[i]).id < t.next_cue_id,
        cues.len() == 0 ==> t.next_cue_id == 1,
        cues.len() > 0 && t.next_cue_id < u32::MAX ==> exists|i: int|
            0 <= i < cues.len() && (#[trigger] cues[i]).id + 1 == t.next_cue_id,
{
    lemma_max_cue_id(cues);
    if cues.len() > 0 {
        let i = choose|i: int| 0 <= i < cues.len() && (#[trigger] cues[i]).id == max_cue_id(cues);
        assert(cues[i].id == max_cue_id(cues));
    }
}

/// A re-split is accepted where the runs follow each other without a gap from
/// the first word to the last, none of them is empty, and the words are sound.
pub proof fn law_gapless_runs_are_accepted(t: TranscriptView, ranges: Seq<RangeUsize>)
    requires
        t.schema_version != 0,
        forall|i: int|
            0 <= i < t.words.len() ==> (#[trigger] t.words[i]).start_ms <= t.words[i].end_ms && (
            t.words[i].prob.bits <= 0x3F80_0000 || t.words[i].prob.bits == 0x8000_0000
                || t.words[i].prob.bits == 0xBF80_0000),
        forall|i: int, j: int|
            0 <= i <= j < t.words.len() ==> (#[trigger] t.words[i]).start_ms <= (
            #[trigger] t.words[j]).start_ms,
    ensures
        split_error(t, ranges) is None <==> {
            &&& t.timeline_source == TimelineSource::AsrWords
            &&& t.words.len() == 0 ==> ranges.len() == 0
            &&& t.words.len() > 0 ==> ranges.len() > 0 && ranges[0].start == 0 && ranges.last().end
                == t.words.len()
            &&& forall|i: int|
                0 <= i < ranges.len() ==> (#[trigger] ranges[i]).start < ranges[i].end
                    && ranges[i].end <= t.words.len()
            &&& forall|i: int|
                0 < i < ranges.len() ==> (#[trigger] ranges[i]).start == ranges[i - 1].end
        },
{
    lemma_sound_words(t, 0);
    lemma_ordered_words(t, 1);
    assert(t.timeline_error() is None);
    if contiguous(ranges, t.words.len() as int) {
        assert forall|i: int| 0 <= i < ranges.len() implies (#[trigger] ranges[i]).start
            < ranges[i].end && ranges[i].end <= t.words.len() && ranges[i].start == end_before(
            ranges,
            i,
        ) by {
            assert(ranges[i].start == end_before(ranges, i));
        }
    }
}

proof fn lemma_sound_words(t: TranscriptView, i: int)
    requires
        0 <= i,
        forall|i: int|
            0 <= i < t.words.len() ==> (#[trigger] t.words[i]).start_ms <= t.words[i].end_ms && (
            t.words[i].prob.bits <= 0x3F80_0000 || t.words[i].prob.bits == 0x8000_0000
                || t.words[i].prob.bits == 0xBF80_0000),
    ensures
        t.word_error(i) is None,
    decreases t.words.len() - i,
{
    if i < t.words.len() {
        assert(t.words[i].start_ms <= t.words[i].end_ms);
        lemma_sound_words(t, i + 1);
    }
}

proof fn lemma_ordered_words(t: TranscriptView, i: int)
    requires
        1 <= i,
        forall|i: int, j: int|
            0 <= i <= j < t.words.len() ==> (#[trigger] t.words[i]).start_ms <= (
            #[trigger] t.words[j]).start_ms,
    ensures
        t.order_error(i) is None,
    decreases t.words.len() - i,
{
    if i < t.words.len() {
        assert(t.words[i - 1].start_ms <= t.words[i].start_ms);
        lemma_ordered_words(t, i + 1);
    }
}

/// A re-split document shows the words of each run as they are spoken, under
/// fresh identifiers, with nothing left of the cues before. Its words stay.
pub proof fn law_split_cues_are_fresh(
    t: TranscriptView,
    ranges: Seq<RangeUsize>,
    request_id: Seq<char>,
    out: TranscriptView,
)
    requires
        is_split(t, ranges, request_id, out),
        ranges.len() < u32::MAX,
    ensures
        out.words == t.words && out.cues.len() == ranges.len(),
        out.source_hash == t.source_hash && out.timeline_source == t.timeline_source,
        out.next_cue_id == ranges.len() + 1,
        t.revision < u64::MAX ==> out.revision == t.revision + 1,
        forall|i: int|
            0 <= i < ranges.len() ==> {
                let cue = #[trigger] out.cues[i];
                &&& cue.id == i + 1
                &&& cue.word_range == Some(ranges[i])
                &&& cue.text@ == words_joined(
                    word_texts(t.words.subrange(ranges[i].start as int, ranges[i].end as int)),
                )
                &&& cue.translation is None
                &&& cue.imported_start_ms is None && cue.imported_end_ms is None
                &&& !cue.flags.llm_failed && !cue.flags.user_edited_text
                    && !cue.flags.user_edited_translation && !cue.flags.hallucination_filtered
                    && !cue.flags.restored_fragment
                &&& cue.text_origin matches Some(FieldOrigin::Llm { request_id: id }) && id@
                    == request_id
                &&& cue.translation_origin is None
                &&& cue.text_revision == 0 && cue.translation_revision == 0
            },
{
    assert forall|i: int| 0 <= i < ranges.len() implies (#[trigger] out.cues[i]).id == i + 1 by {
        assert(super::revision::is_split_cue(
            out.cues[i],
            t.words,
            ranges[i],
            super::revision::fresh_cue_id(i),
            request_id,
        ));
    }
}

proof fn lemma_same_places_stay_valid(t: TranscriptView, out: TranscriptView)
    requires
        t.valid(),
        same_timeline(t, out),
    ensures
        out.first_error() is None,
{
    assert forall|i: int| 0 <= i < out.cues.len() implies out.range_in_words(
        #[trigger] out.cues[i],
    ) && out.times(out.cues[i]) is Ok by {
        assert(t.range_in_words(t.cues[i]) && t.times(t.cues[i]) is Ok);
        assert(same_place(t.cues[i], out.cues[i]));
    }
    assert forall|i: int, j: int| 0 <= i < j < out.cues.len() implies TranscriptView::apart(
        #[trigger] out.cues[i],
        #[trigger] out.cues[j],
    ) by {
        assert(TranscriptView::apart(t.cues[i], t.cues[j]));
        assert(same_place(t.cues[i], out.cues[i]));
        assert(same_place(t.cues[j], out.cues[j]));
    }
    law_no_error_means_valid(out);
}

/// The update names a cue that is there, at the revision that its field has.
pub open spec fn is_current(cues: Seq<Cue>, field: LlmTextField, update: CueTextUpdate, p: int) -> bool {
    &&& 0 <= p < cues.len()
    &&& cues[p].id == update.cue_id
    &&& forall|i: int| 0 <= i < p ==> (#[trigger] cues[i]).id != update.cue_id
    &&& update.expected_field_revision == match field {
        LlmTextField::Source => cues[p].text_revision,
        LlmTextField::Translation => cues[p].translation_revision,
    }
}

proof fn lemma_current_updates(
    cues: Seq<Cue>,
    binding: LlmResultBinding,
    updates: Seq<CueTextUpdate>,
    at: Seq<int>,
)
    requires
        at.len() == updates.len(),
        forall|u: int|
            0 <= u < updates.len() ==> is_current(
                cues,
                binding.field,
                #[trigger] updates[u],
                at[u],
            ),
        forall|u: int, v: int|
            0 <= u < v < updates.len() ==> (#[trigger] updates[u]).cue_id != (
            #[trigger] updates[v]).cue_id,
    ensures
        after_updates(cues, binding, updates) matches Ok((_, changed)) && (changed <==> exists|u: int|
            0 <= u < updates.len() && !user_owned(cues[#[trigger] at[u]], binding.field)),
    decreases updates.len(),
{
    if updates.len() > 0 {
        let front = updates.drop_last();
        let before_at = at.drop_last();
        let last = updates.last();
        let n = updates.len() - 1;
        let p = at[n];
        assert forall|u: int| 0 <= u < front.len() implies is_current(
            cues,
            binding.field,
            #[trigger] front[u],
            before_at[u],
        ) by {
            assert(is_current(cues, binding.field, updates[u], at[u]));
        }
        assert forall|u: int, v: int| 0 <= u < v < front.len() implies (#[trigger] front[u]).cue_id
            != (#[trigger] front[v]).cue_id by {
            assert(updates[u].cue_id != updates[v].cue_id);
        }
        lemma_current_updates(cues, binding, front, before_at);
        lemma_updates_write_one_field(cues, binding, front);
        assert(is_current(cues, binding.field, updates[n], at[n]));
        let (before, changed) = after_updates(cues, binding, front)->Ok_0;
        assert forall|u: int| 0 <= u < front.len() implies (#[trigger] front[u]).cue_id
            != cues[p].id by {
            assert(updates[u].cue_id != updates[n].cue_id);
        }
        assert(before[p] == cues[p]);
        assert forall|i: int| 0 <= i < p implies (#[trigger] before[i]).id != last.cue_id by {
            assert(cues[i].id != last.cue_id);
        }
        lemma_first_position(before, last.cue_id, p, 0);
        let all = after_updates(cues, binding, updates)->Ok_0.1;
        if exists|u: int|
            0 <= u < updates.len() && !user_owned(cues[#[trigger] at[u]], binding.field) {
            let u = choose|u: int|
                0 <= u < updates.len() && !user_owned(cues[#[trigger] at[u]], binding.field);
            if u < n {
                assert(before_at[u] == at[u]);
            }
        }
        if changed {
            let u = choose|u: int|
                0 <= u < front.len() && !user_owned(cues[#[trigger] before_at[u]], binding.field);
            assert(at[u] == before_at[u]);
        }
    }
}

/// A result of the language model that was made on the present document, with
/// one update for each cue, is accepted. The document is one revision further
/// where anything was written, and else as it was.
pub proof fn law_current_results_are_accepted(
    t: TranscriptView,
    binding: LlmResultBinding,
    updates: Seq<CueTextUpdate>,
    at: Seq<int>,
)
    requires
        t.valid(),
        t.revision < u64::MAX,
        binding.transcript_revision == t.revision,
        at.len() == updates.len(),
        forall|u: int|
            0 <= u < updates.len() ==> is_current(
                t.cues,
                binding.field,
                #[trigger] updates[u],
                at[u],
            ),
        forall|u: int, v: int|
            0 <= u < v < updates.len() ==> (#[trigger] updates[u]).cue_id != (
            #[trigger] updates[v]).cue_id,
    ensures
        llm_text_outcome(t, binding, updates) is Ok,
        (exists|u: int| 0 <= u < updates.len() && !user_owned(t.cues[#[trigger] at[u]], binding.field))
            ==> llm_text_outcome(t, binding, updates)->Ok_0.revision == t.revision + 1,
        (forall|u: int| 0 <= u < updates.len() ==> user_owned(t.cues[#[trigger] at[u]], binding.field))
            ==> llm_text_outcome(t, binding, updates)->Ok_0.revision == t.revision,
{
    lemma_current_updates(t.cues, binding, updates, at);
    lemma_updates_keep_places(t.cues, binding, updates);
    let (cues, changed) = after_updates(t.cues, binding, updates)->Ok_0;
    lemma_same_places_stay_valid(t, with_cues(t, cues, changed));
}

/// A result is refused where the document has moved on since it was asked for,
/// and where the field of a cue has.
pub proof fn law_stale_results_are_refused(
    t: TranscriptView,
    binding: LlmResultBinding,
    updates: Seq<CueTextUpdate>,
    u: int,
    p: int,
)
    ensures
        binding.transcript_revision != t.revision ==> llm_text_outcome(t, binding, updates) == Err::<
            TranscriptView,
            DomainErrorView,
        >(
            DomainErrorView::StaleRevision {
                expected: binding.transcript_revision,
                actual: t.revision,
            },
        ),
        0 <= u < updates.len() && 0 <= p < t.cues.len() && t.cues[p].id == updates[u].cue_id && (
        forall|i: int| 0 <= i < p ==> (#[trigger] t.cues[i]).id != updates[u].cue_id) && (forall|
            v: int,
        |
            0 <= v < u ==> (#[trigger] updates[v]).cue_id != updates[u].cue_id) && !is_current(
            t.cues,
            binding.field,
            updates[u],
            p,
        ) ==> llm_text_outcome(t, binding, updates) is Err,
        0 <= u < updates.len() && (forall|i: int|
            0 <= i < t.cues.len() ==> (#[trigger] t.cues[i]).id != updates[u].cue_id)
            ==> llm_text_outcome(t, binding, updates) is Err,
{
    if 0 <= u < updates.len() {
        lemma_update_was_current(t.cues, binding, updates, u);
        if 0 <= p < t.cues.len() && t.cues[p].id == updates[u].cue_id && (forall|i: int|
            0 <= i < p ==> (#[trigger] t.cues[i]).id != updates[u].cue_id) {
            lemma_first_position(t.cues, updates[u].cue_id, p, 0);
        }
        lemma_position_in_bounds(t.cues, updates[u].cue_id, 0);
    }
}

proof fn lemma_update_was_current(
    cues: Seq<Cue>,
    binding: LlmResultBinding,
    updates: Seq<CueTextUpdate>,
    u: int,
)
    requires
        0 <= u < updates.len(),
    ensures
        after_updates(cues, binding, updates) is Ok ==> {
            &&& cue_position(cues, updates[u].cue_id, 0) matches Some(p)
            &&& (forall|v: int| 0 <= v < u ==> (#[trigger] updates[v]).cue_id != updates[u].cue_id)
                ==> updates[u].expected_field_revision == match binding.field {
                LlmTextField::Source => cues[p].text_revision,
                LlmTextField::Translation => cues[p].translation_revision,
            }
        },
    decreases updates.len(),
{
    if after_updates(cues, binding, updates) is Ok {
        let front = updates.drop_last();
        if u < front.len() {
            lemma_update_was_current(cues, binding, front, u);
            if forall|v: int| 0 <= v < u ==> (#[trigger] updates[v]).cue_id != updates[u].cue_id {
                assert forall|v: int| 0 <= v < u implies (#[trigger] front[v]).cue_id
                    != front[u].cue_id by {
                    assert(updates[v].cue_id != updates[u].cue_id);
                }
            }
        } else {
            lemma_updates_write_one_field(cues, binding, front);
            let before = after_updates(cues, binding, front)->Ok_0.0;
            lemma_position_in_bounds(before, updates[u].cue_id, 0);
            let q = cue_position(before, updates[u].cue_id, 0)->0;
            assert(cues[q].id == updates[u].cue_id);
            lemma_same_positions(cues, before, updates[u].cue_id, 0);
            if forall|v: int| 0 <= v < u ==> (#[trigger] updates[v]).cue_id != updates[u].cue_id {
                assert forall|v: int| 0 <= v < front.len() implies (#[trigger] front[v]).cue_id
                    != cues[q].id by {
                    assert(updates[v].cue_id != updates[u].cue_id);
                }
                assert(before[q] == cues[q]);
            }
        }
    }
}

proof fn lemma_same_positions(a: Seq<Cue>, b: Seq<Cue>, id: u32, from: int)
    requires
        0 <= from,
        a.len() == b.len(),
        forall|i: int| 0 <= i < a.len() ==> (#[trigger] a[i]).id == b[i].id,
    ensures
        cue_position(a, id, from) == cue_position(b, id, from),
    decreases a.len() - from,
{
    if from < a.len() && a[from].id != id {
        lemma_same_positions(a, b, id, from + 1);
    } else if from < a.len() {
        assert(a[from].id == b[from].id);
    }
}

/// A written field names the request that it came from, is one revision further
/// and is not the user's. A single update writes to its own cue only.
pub proof fn law_written_fields_name_their_request(
    t: TranscriptView,
    binding: LlmResultBinding,
    update: CueTextUpdate,
    out: TranscriptView,
    p: int,
)
    requires
        llm_text_outcome(t, binding, seq![update]) == Ok::<TranscriptView, DomainErrorView>(out),
        0 <= p < t.cues.len(),
        t.cues[p].id == update.cue_id,
        forall|i: int| 0 <= i < p ==> (#[trigger] t.cues[i]).id != update.cue_id,
        t.cues[p].text_revision < u64::MAX,
        t.cues[p].translation_revision < u64::MAX,
    ensures
        binding.field == LlmTextField::Source && t.cues[p].text_origin != Some(FieldOrigin::User)
            ==> out.cues[p] == (Cue {
            text: update.value,
            text_origin: Some(FieldOrigin::Llm { request_id: binding.request_id }),
            text_revision: (t.cues[p].text_revision + 1) as u64,
            flags: CueFlags { user_edited_text: false, ..t.cues[p].flags },
            ..t.cues[p]
        }),
        binding.field == LlmTextField::Translation && t.cues[p].translation_origin != Some(
            FieldOrigin::User,
        ) ==> out.cues[p] == (Cue {
            translation: Some(update.value),
            translation_origin: Some(FieldOrigin::Llm { request_id: binding.request_id }),
            translation_revision: (t.cues[p].translation_revision + 1) as u64,
            flags: CueFlags { user_edited_translation: false, ..t.cues[p].flags },
            ..t.cues[p]
        }),
        forall|i: int| 0 <= i < t.cues.len() && i != p ==> #[trigger] out.cues[i] == t.cues[i],
{
    let updates = seq![update];
    assert(updates.drop_last() =~= seq![]);
    assert(updates.last() == update);
    assert(after_updates(t.cues, binding, updates.drop_last()) == Ok::<
        (Seq<Cue>, bool),
        DomainErrorView,
    >((t.cues, false)));
    lemma_first_position(t.cues, update.cue_id, p, 0);
}

proof fn lemma_known_cues_are_marked(cues: Seq<Cue>, ids: Seq<u32>)
    requires
        forall|k: int|
            0 <= k < ids.len() ==> exists|i: int|
                0 <= i < cues.len() && (#[trigger] cues[i]).id == #[trigger] ids[k],
    ensures
        after_failures(cues, ids) is Ok,
    decreases ids.len(),
{
    if ids.len() > 0 {
        let front = ids.drop_last();
        assert forall|k: int| 0 <= k < front.len() implies exists|i: int|
            0 <= i < cues.len() && (#[trigger] cues[i]).id == #[trigger] front[k] by {
            let i = choose|i: int| 0 <= i < cues.len() && (#[trigger] cues[i]).id == ids[k];
            assert(cues[i].id == front[k]);
        }
        lemma_known_cues_are_marked(cues, front);
        lemma_failures_keep_cues(cues, front);
        let before = after_failures(cues, front)->Ok_0.0;
        let n = ids.len() - 1;
        let i = choose|i: int| 0 <= i < cues.len() && (#[trigger] cues[i]).id == ids[n];
        assert(same_but_failure(cues[i], before[i]));
        lemma_some_position(before, ids[n], i, 0);
    }
}

/// Cues that are there can be marked. The document is one revision further where
/// a mark is new.
pub proof fn law_known_cues_can_be_marked(t: TranscriptView, ids: Seq<u32>, k: int, p: int)
    requires
        t.valid(),
        t.revision < u64::MAX,
        forall|k: int|
            0 <= k < ids.len() ==> exists|i: int|
                0 <= i < t.cues.len() && (#[trigger] t.cues[i]).id == #[trigger] ids[k],
    ensures
        failure_outcome(t, ids) is Ok,
        ids.len() == 0 ==> failure_outcome(t, ids) == Ok::<TranscriptView, DomainErrorView>(t),
        0 <= k < ids.len() && 0 <= p < t.cues.len() && t.cues[p].id == ids[k] && (forall|i: int|
            0 <= i < p ==> (#[trigger] t.cues[i]).id != ids[k]) && !t.cues[p].flags.llm_failed
            ==> failure_outcome(t, ids)->Ok_0.revision == t.revision + 1,
{
    lemma_known_cues_are_marked(t.cues, ids);
    lemma_failures_keep_cues(t.cues, ids);
    let (cues, changed) = after_failures(t.cues, ids)->Ok_0;
    let out = with_cues(t, cues, changed);
    assert forall|i: int| 0 <= i < t.cues.len() implies same_place(#[trigger] t.cues[i], cues[i]) by {
        assert(same_but_failure(t.cues[i], cues[i]));
    }
    lemma_same_places_stay_valid(t, out);
    if 0 <= k < ids.len() && 0 <= p < t.cues.len() && t.cues[p].id == ids[k] && (forall|i: int|
        0 <= i < p ==> (#[trigger] t.cues[i]).id != ids[k]) && !t.cues[p].flags.llm_failed {
        lemma_new_marks_change(t.cues, ids, k, p);
    }
}

proof fn lemma_new_marks_change(cues: Seq<Cue>, ids: Seq<u32>, k: int, p: int)
    requires
        after_failures(cues, ids) is Ok,
        0 <= k < ids.len(),
        0 <= p < cues.len(),
        cues[p].id == ids[k],
        forall|i: int| 0 <= i < p ==> (#[trigger] cues[i]).id != ids[k],
        !cues[p].flags.llm_failed,
    ensures
        after_failures(cues, ids)->Ok_0.1,
    decreases ids.len(),
{
    let front = ids.drop_last();
    lemma_failures_keep_cues(cues, front);
    let (before, changed) = after_failures(cues, front)->Ok_0;
    if k < front.len() {
        lemma_new_marks_change(cues, front, k, p);
    } else {
        assert forall|i: int| 0 <= i < p implies (#[trigger] before[i]).id != ids[k] by {
            assert(same_but_failure(cues[i], before[i]));
            assert(cues[i].id != ids[k]);
        }
        assert(same_but_failure(cues[p], before[p]));
        lemma_first_position(before, ids[k], p, 0);
    }
}

/// A cue without times tells what it lacks.
pub proof fn law_cues_without_times(t: TranscriptView, cue: Cue)
    ensures
        t.timeline_source == TimelineSource::AsrWords && cue.word_range is None ==> t.times(cue)
            == Err::<(u64, u64), DomainErrorView>(
            DomainErrorView::TimestampInvalid(
                "cue "@ + decimal(cue.id as nat) + " missing word_range"@,
            ),
        ),
        t.timeline_source == TimelineSource::AsrWords ==> (cue.word_range matches Some(range) ==> (
        range.start >= range.end || range.end > t.words.len()) ==> t.times(cue) == Err::<
            (u64, u64),
            DomainErrorView,
        >(
            DomainErrorView::TimestampInvalid(
                "cue "@ + decimal(cue.id as nat) + " has invalid word_range"@,
            ),
        )),
        t.timeline_source == TimelineSource::ImportedCue && cue.imported_start_ms is None ==> t.times(
            cue,
        ) == Err::<(u64, u64), DomainErrorView>(
            DomainErrorView::TimestampInvalid(
                "cue "@ + decimal(cue.id as nat) + " missing imported_start_ms"@,
            ),
        ),
        t.timeline_source == TimelineSource::ImportedCue && cue.imported_start_ms is Some
            && cue.imported_end_ms is None ==> t.times(cue) == Err::<(u64, u64), DomainErrorView>(
            DomainErrorView::TimestampInvalid(
                "cue "@ + decimal(cue.id as nat) + " missing imported_end_ms"@,
            ),
        ),
{
}

/// A word that ends before it starts, or whose confidence is no share, is named in
/// the error.
pub proof fn law_unsound_words_are_named(word: Word)
    ensures
        word.end_ms < word.start_ms ==> word.first_error() == Some(
            DomainErrorView::TimestampInvalid(
                "word end_ms "@ + decimal(word.end_ms as nat) + " < start_ms "@ + decimal(
                    word.start_ms as nat,
                ),
            ),
        ),
        word.end_ms >= word.start_ms && word.prob.bits > 0x3F80_0000 && word.prob.bits
            != 0x8000_0000 && word.prob.bits != 0xBF80_0000 ==> word.first_error() == Some(
            DomainErrorView::InvalidArgument("invalid word.prob "@ + word.prob.numeral@),
        ),
        word.end_ms >= word.start_ms && (word.prob.bits <= 0x3F80_0000 || word.prob.bits
            == 0x8000_0000 || word.prob.bits == 0xBF80_0000) ==> word.first_error() is None,
{
}

} // verus!
