//! From accepted texts to the next revision of the transcript.
use vstd::prelude::*;
use vstd::slice::*;
use vstd::string::*;

use crate::contracts::{
    AppResult, ApplicationError, ApplicationErrorView, ErrorCode, VcErrorView,
};
use crate::error::DomainErrorView;
use crate::identity::UlidStr;
use crate::ports::{LlmCapabilities, LlmStage};
use crate::subtitle::revision::{
    cue_index, cue_position, failure_outcome, field_revision, is_split, llm_text_outcome,
    split_error,
};
use crate::subtitle::laws::{
    law_accepted_results_are_written, law_failure_marks_are_exact, law_failure_marks_keep_texts,
    law_llm_text_respects_timeline_and_user, lemma_first_position, same_place,
};
use crate::subtitle::transcript::{
    Cue, CueTextUpdate, FieldOrigin, LlmResultBinding, LlmTextField, RangeUsize, Transcript, TranscriptView,
    Word,
};
use crate::workflow::job::counted;

use super::isolation::input_ids;
use super::packing::{
    batch_estimate, estimate_batch_tokens, one_batch, pack_one_batch, too_large, PackLimits,
};
use super::plan::{
    copy_entries, input_views, is_entry, is_plan, plan_entry, plan_with, same_entries,
    same_entry,
};
use super::split::{formatted_ranges, split_ranges_for_formatted};
use super::texts::{law_every_key_is_visited, CueTexts};
use super::types::{
    BatchInput, CueInput, LlmPipelineRequest, LlmPipelineResult, LlmPlan, LlmPlanEntry,
    DEFAULT_CONTEXT_TOKENS, DEFAULT_OUTPUT_TOKENS,
};
use super::validation::{refused_reply, validation_error};

verus! {

/// Why a stage is not begun, if so.
pub open spec fn start_refusal(cancelled: bool, prompt_stage: LlmStage, stage: LlmStage) -> Option<
    ApplicationErrorView,
> {
    if cancelled {
        Some(ApplicationErrorView::Cancelled)
    } else if prompt_stage != stage {
        Some(
            ApplicationErrorView::Invalid(
                "LLM prompt snapshot stage does not match the requested stage"@,
            ),
        )
    } else {
        None
    }
}

/// Stop a stage that was cancelled.
pub fn ensure_not_cancelled(cancelled: bool) -> (result: AppResult<()>)
    ensures
        match result {
            Ok(_) => !cancelled,
            Err(error) => cancelled && error@ == ApplicationErrorView::Cancelled,
        },
{
    if cancelled {
        Err(ApplicationError::Cancelled)
    } else {
        Ok(())
    }
}

/// Check that a stage may begin.
pub fn check_start(cancelled: bool, request: &LlmPipelineRequest) -> (result: AppResult<()>)
    ensures
        match result {
            Ok(_) => start_refusal(cancelled, request.prompt.stage, request.stage) is None,
            Err(error) => start_refusal(cancelled, request.prompt.stage, request.stage) == Some(
                error@,
            ),
        },
{
    ensure_not_cancelled(cancelled)?;
    if request.prompt.stage != request.stage {
        return Err(
            ApplicationError::invalid(
                "LLM prompt snapshot stage does not match the requested stage",
            ),
        );
    }
    Ok(())
}

/// The first of two numbers that is known, otherwise the fallback.
pub open spec fn first_known(a: Option<u32>, b: Option<u32>, fallback: u32) -> u32 {
    match a {
        Some(n) => n,
        None => match b {
            Some(n) => n,
            None => fallback,
        },
    }
}

/// The context and the output that a stage may use, in tokens.
pub fn token_limits(request: &LlmPipelineRequest, capabilities: &LlmCapabilities) -> (limits: (
    u32,
    u32,
))
    ensures
        limits.0 == first_known(
            request.max_context_tokens,
            capabilities.max_context_tokens,
            DEFAULT_CONTEXT_TOKENS,
        ),
        limits.1 == first_known(
            request.max_output_tokens,
            capabilities.max_output_tokens,
            DEFAULT_OUTPUT_TOKENS,
        ),
{
    let context: u32 = match request.max_context_tokens {
        Some(n) => n,
        None => match capabilities.max_context_tokens {
            Some(n) => n,
            None => DEFAULT_CONTEXT_TOKENS,
        },
    };
    let output: u32 = match request.max_output_tokens {
        Some(n) => n,
        None => match capabilities.max_output_tokens {
            Some(n) => n,
            None => DEFAULT_OUTPUT_TOKENS,
        },
    };
    (context, output)
}

/// The cues of a transcript as they are worked on.
pub open spec fn source_views(cues: Seq<Cue>) -> Seq<(u32, Seq<char>)> {
    Seq::new(cues.len(), |i: int| (cues[i].id, cues[i].text@))
}

pub fn inputs_of(transcript: &Transcript) -> (inputs: Vec<CueInput>)
    ensures
        input_views(inputs@) == source_views(transcript.cues@),
{
    let mut inputs: Vec<CueInput> = Vec::new();
    let mut i: usize = 0;
    while i < transcript.cues.len()
        invariant
            i <= transcript.cues.len(),
            input_views(inputs@) == source_views(transcript.cues@).take(i as int),
        decreases transcript.cues.len() - i,
    {
        let ghost before = inputs@;
        let cue = &transcript.cues[i];
        inputs.push(CueInput { id: cue.id, text: cue.text.clone() });
        i += 1;
        assert(input_views(inputs@) =~= input_views(before).push(
            source_views(transcript.cues@)[i - 1],
        ));
        assert(input_views(inputs@) =~= source_views(transcript.cues@).take(i as int));
    }
    assert(input_views(inputs@) =~= source_views(transcript.cues@));
    inputs
}

/// What the split stage does with a transcript.
#[derive(Debug)]
pub enum SplitStart {
    /// There are no words to cut, so the transcript stays as it is.
    Unchanged,
    /// The model is asked.
    Ask,
}

/// Decide what the split stage does with a transcript.
pub fn start_split(transcript: &Transcript) -> (start: AppResult<SplitStart>)
    ensures
        match start {
            Err(error) => transcript.cues@.len() == 0 && error@ == ApplicationErrorView::Adapter(
                VcErrorView::plain(
                    ErrorCode::LlmValidationFailed,
                    "LLM split requires a rule-split transcript"@,
                ),
            ),
            Ok(SplitStart::Unchanged) => transcript.cues@.len() > 0 && transcript.words@.len() == 0,
            Ok(SplitStart::Ask) => transcript.cues@.len() > 0 && transcript.words@.len() > 0,
        },
{
    if transcript.cues.len() == 0 {
        return Err(
            ApplicationError::adapter(
                ErrorCode::LlmValidationFailed,
                "LLM split requires a rule-split transcript",
            ),
        );
    }
    if transcript.words.len() == 0 {
        Ok(SplitStart::Unchanged)
    } else {
        Ok(SplitStart::Ask)
    }
}

/// Every cue has its words among those of the transcript.
pub open spec fn ranges_in_words(cues: Seq<Cue>, words: Seq<Word>) -> bool {
    forall|i: int|
        0 <= i < cues.len() ==> ((#[trigger] cues[i]).word_range matches Some(range) ==> range.start
            <= range.end <= words.len())
}

/// The formatted text of a cue: from the reply, or its own without one.
pub open spec fn formatted_text(cue: Cue, texts: Map<u32, Seq<char>>) -> Seq<char> {
    if texts.contains_key(cue.id) {
        texts[cue.id]
    } else {
        cue.text@
    }
}

/// The runs of words of the first `n` cues, or what is wrong with the text of
/// one of them.
pub open spec fn all_ranges(
    words: Seq<Word>,
    cues: Seq<Cue>,
    texts: Map<u32, Seq<char>>,
    n: int,
) -> Result<Seq<RangeUsize>, Seq<char>>
    decreases n,
{
    if n <= 0 {
        Ok(seq![])
    } else {
        match all_ranges(words, cues, texts, n - 1) {
            Err(text) => Err(text),
            Ok(front) => match formatted_ranges(
                words,
                cues[n - 1],
                formatted_text(cues[n - 1], texts),
            ) {
                Err(text) => Err(text),
                Ok(ranges) => Ok(front + ranges),
            },
        }
    }
}

proof fn lemma_ranges_fail(
    words: Seq<Word>,
    cues: Seq<Cue>,
    texts: Map<u32, Seq<char>>,
    m: int,
    n: int,
)
    requires
        m <= n,
        all_ranges(words, cues, texts, m) is Err,
    ensures
        all_ranges(words, cues, texts, n) == all_ranges(words, cues, texts, m),
    decreases n - m,
{
    if m < n {
        lemma_ranges_fail(words, cues, texts, m, n - 1);
    }
}

fn collect_ranges(transcript: &Transcript, texts: &CueTexts) -> (result: Result<
    Vec<RangeUsize>,
    String,
>)
    requires
        ranges_in_words(transcript.cues@, transcript.words@),
    ensures
        match result {
            Ok(ranges) => all_ranges(
                transcript.words@,
                transcript.cues@,
                texts@,
                transcript.cues@.len() as int,
            ) == Ok::<Seq<RangeUsize>, Seq<char>>(ranges@),
            Err(text) => all_ranges(
                transcript.words@,
                transcript.cues@,
                texts@,
                transcript.cues@.len() as int,
            ) == Err::<Seq<RangeUsize>, Seq<char>>(text@),
        },
{
    let mut ranges: Vec<RangeUsize> = Vec::new();
    let mut i: usize = 0;
    while i < transcript.cues.len()
        invariant
            i <= transcript.cues.len(),
            ranges_in_words(transcript.cues@, transcript.words@),
            all_ranges(transcript.words@, transcript.cues@, texts@, i as int) == Ok::<
                Seq<RangeUsize>,
                Seq<char>,
            >(ranges@),
        decreases transcript.cues.len() - i,
    {
        let cue = &transcript.cues[i];
        let formatted = match texts.get(cue.id) {
            Some(text) => text,
            None => cue.text.as_str(),
        };
        assert(transcript.cues@[i as int] == *cue);
        match split_ranges_for_formatted(transcript, cue, formatted) {
            Ok(more) => {
                let ghost before = ranges@;
                let mut k: usize = 0;
                while k < more.len()
                    invariant
                        k <= more.len(),
                        ranges@ == before + more@.take(k as int),
                    decreases more.len() - k,
                {
                    ranges.push(more[k]);
                    k += 1;
                    assert(ranges@ =~= before + more@.take(k as int));
                }
                assert(more@.take(k as int) =~= more@);
            },
            Err(text) => {
                proof {
                    lemma_ranges_fail(
                        transcript.words@,
                        transcript.cues@,
                        texts@,
                        i + 1,
                        transcript.cues@.len() as int,
                    );
                }
                return Err(text);
            },
        }
        i += 1;
    }
    Ok(ranges)
}

/// A run of words lies in the words of a cue that was given up.
pub open spec fn in_given_up(range: RangeUsize, cues: Seq<Cue>, degraded: Seq<u32>) -> bool {
    exists|i: int|
        0 <= i < cues.len() && degraded.contains((#[trigger] cues[i]).id) && (
        cues[i].word_range matches Some(own) && range.start >= own.start && range.end <= own.end)
}

/// The new cues among the first `n` that lie in cues that were given up.
pub open spec fn given_up(
    new_cues: Seq<Cue>,
    cues: Seq<Cue>,
    degraded: Seq<u32>,
    n: int,
) -> Seq<u32>
    decreases n,
{
    if n <= 0 {
        seq![]
    } else {
        let front = given_up(new_cues, cues, degraded, n - 1);
        let cue = new_cues[n - 1];
        match cue.word_range {
            Some(range) => if in_given_up(range, cues, degraded) {
                front.push(cue.id)
            } else {
                front
            },
            None => front,
        }
    }
}

fn holds_id(ids: &Vec<u32>, id: u32) -> (answer: bool)
    ensures
        answer == ids@.contains(id),
{
    let mut i: usize = 0;
    while i < ids.len()
        invariant
            i <= ids.len(),
            forall|k: int| 0 <= k < i ==> #[trigger] ids@[k] != id,
        decreases ids.len() - i,
    {
        if ids[i] == id {
            assert(ids@[i as int] == id);
            return true;
        }
        i += 1;
    }
    false
}

fn is_in_given_up(range: RangeUsize, cues: &Vec<Cue>, degraded: &Vec<u32>) -> (answer: bool)
    ensures
        answer == in_given_up(range, cues@, degraded@),
{
    let mut i: usize = 0;
    while i < cues.len()
        invariant
            i <= cues.len(),
            forall|k: int|
                0 <= k < i ==> !(degraded@.contains((#[trigger] cues@[k]).id) && (
                cues@[k].word_range matches Some(own) && range.start >= own.start && range.end
                    <= own.end)),
        decreases cues.len() - i,
    {
        if let Some(own) = cues[i].word_range {
            if range.start >= own.start && range.end <= own.end && holds_id(degraded, cues[i].id) {
                assert(degraded@.contains(cues@[i as int].id));
                return true;
            }
        }
        i += 1;
    }
    false
}

fn collect_given_up(new_cues: &Vec<Cue>, cues: &Vec<Cue>, degraded: &Vec<u32>) -> (ids: Vec<u32>)
    ensures
        ids@ == given_up(new_cues@, cues@, degraded@, new_cues@.len() as int),
{
    let mut ids: Vec<u32> = Vec::new();
    let mut i: usize = 0;
    while i < new_cues.len()
        invariant
            i <= new_cues.len(),
            ids@ == given_up(new_cues@, cues@, degraded@, i as int),
        decreases new_cues.len() - i,
    {
        if let Some(range) = new_cues[i].word_range {
            if is_in_given_up(range, cues, degraded) {
                ids.push(new_cues[i].id);
            }
        }
        i += 1;
    }
    ids
}

/// The transcript with cues marked as given up, if there are any.
pub open spec fn with_given_up(t: TranscriptView, ids: Seq<u32>) -> Result<
    TranscriptView,
    DomainErrorView,
> {
    if ids.len() == 0 {
        Ok(t)
    } else {
        failure_outcome(t, ids)
    }
}

/// `out` and `ids` are the transcript after the split stage, and its cues that
/// were given up.
pub open spec fn is_split_result(
    t: TranscriptView,
    ranges: Seq<RangeUsize>,
    degraded: Seq<u32>,
    request_id: Seq<char>,
    out: TranscriptView,
    ids: Seq<u32>,
) -> bool {
    exists|cut: TranscriptView| #[trigger]
        is_split(t, ranges, request_id, cut) && ids == given_up(
            cut.cues,
            t.cues,
            degraded,
            cut.cues.len() as int,
        ) && with_given_up(cut, ids) == Ok::<TranscriptView, DomainErrorView>(out)
}

/// The error of a split that succeeds, but whose marks cannot be set.
pub open spec fn is_mark_error(
    t: TranscriptView,
    ranges: Seq<RangeUsize>,
    degraded: Seq<u32>,
    request_id: Seq<char>,
    error: ApplicationErrorView,
) -> bool {
    exists|cut: TranscriptView| #[trigger]
        is_split(t, ranges, request_id, cut) && (with_given_up(
            cut,
            given_up(cut.cues, t.cues, degraded, cut.cues.len() as int),
        ) matches Err(e) && error == ApplicationErrorView::Domain(e))
}

/// Cut the transcript anew along the formatted texts. The cues that lie in cues
/// that were given up are marked.
pub fn finish_split(
    transcript: &Transcript,
    formatted: &CueTexts,
    degraded: &Vec<u32>,
    request_id: &str,
) -> (result: AppResult<(Transcript, Vec<u32>)>)
    requires
        ranges_in_words(transcript.cues@, transcript.words@),
    ensures
        match all_ranges(
            transcript.words@,
            transcript.cues@,
            formatted@,
            transcript.cues@.len() as int,
        ) {
            Err(text) => result matches Err(error) && error@ == refused_reply("split"@, text),
            Ok(ranges) => match split_error(transcript@, ranges) {
                Some(e) => result matches Err(error) && error@ == ApplicationErrorView::Domain(e),
                None => match result {
                    Ok((out, ids)) => is_split_result(
                        transcript@,
                        ranges,
                        degraded@,
                        request_id@,
                        out@,
                        ids@,
                    ),
                    Err(error) => is_mark_error(
                        transcript@,
                        ranges,
                        degraded@,
                        request_id@,
                        error@,
                    ),
                },
            },
        },
{
    let ranges = match collect_ranges(transcript, formatted) {
        Ok(ranges) => ranges,
        Err(text) => {
            return Err(validation_error("split", text.as_str()));
        },
    };
    let cut = match transcript.apply_llm_split(ranges.as_slice(), request_id) {
        Ok(cut) => cut,
        Err(error) => {
            return Err(ApplicationError::Domain(error));
        },
    };
    assert(is_split(transcript@, ranges@, request_id@, cut@));
    let ids = collect_given_up(&cut.cues, &transcript.cues, degraded);
    if ids.len() == 0 {
        return Ok((cut, ids));
    }
    match cut.mark_llm_failed(ids.as_slice()) {
        Ok(out) => Ok((out, ids)),
        Err(error) => Err(ApplicationError::Domain(error)),
    }
}

/// An update with its text as a character sequence.
pub open spec fn update_views(updates: Seq<CueTextUpdate>) -> Seq<(u32, u64, Seq<char>)> {
    Seq::new(
        updates.len(),
        |i: int| (updates[i].cue_id, updates[i].expected_field_revision, updates[i].value@),
    )
}

/// The updates of the first `n` texts, each for the revision that the cue has
/// now. Texts without a cue are left out.
pub open spec fn wanted_updates(
    order: Seq<u32>,
    texts: Map<u32, Seq<char>>,
    cues: Seq<Cue>,
    field: LlmTextField,
    n: int,
) -> Seq<(u32, u64, Seq<char>)>
    decreases n,
{
    if n <= 0 {
        seq![]
    } else {
        let front = wanted_updates(order, texts, cues, field, n - 1);
        let id = order[n - 1];
        match cue_position(cues, id, 0) {
            Some(p) => front.push((id, field_revision(cues[p], field), texts[id])),
            None => front,
        }
    }
}

/// The updates that accepted texts ask for.
pub fn updates_for(texts: &CueTexts, transcript: &Transcript, field: LlmTextField) -> (updates: Vec<
    CueTextUpdate,
>)
    requires
        texts.in_order(),
    ensures
        update_views(updates@) == wanted_updates(
            texts.order(),
            texts@,
            transcript.cues@,
            field,
            texts.order().len() as int,
        ),
{
    let mut updates: Vec<CueTextUpdate> = Vec::new();
    let mut i: usize = 0;
    assert(update_views(updates@) =~= seq![]);
    while i < texts.len()
        invariant
            i <= texts.order().len(),
            texts.in_order(),
            update_views(updates@) == wanted_updates(
                texts.order(),
                texts@,
                transcript.cues@,
                field,
                i as int,
            ),
        decreases texts.order().len() - i,
    {
        let (id, text) = texts.entry(i);
        if let Some(p) = cue_index(&transcript.cues, id) {
            let revision: u64 = match field {
                LlmTextField::Source => transcript.cues[p].text_revision,
                LlmTextField::Translation => transcript.cues[p].translation_revision,
            };
            let ghost before = updates@;
            updates.push(
                CueTextUpdate {
                    cue_id: id,
                    expected_field_revision: revision,
                    value: text.to_owned(),
                },
            );
            assert(update_views(updates@) =~= update_views(before).push((id, revision, text@)));
        }
        i += 1;
    }
    updates
}

/// `binding` and `updates` hand accepted texts to a transcript as it is now.
pub open spec fn is_handover(
    t: TranscriptView,
    texts: CueTexts,
    field: LlmTextField,
    request_id: Seq<char>,
    binding: LlmResultBinding,
    updates: Seq<CueTextUpdate>,
) -> bool {
    &&& binding.transcript_revision == t.revision
    &&& binding.field == field
    &&& binding.request_id@ == request_id
    &&& update_views(updates) == wanted_updates(
        texts.order(),
        texts@,
        t.cues,
        field,
        texts.order().len() as int,
    )
}

/// `outcome` is what becomes of a transcript that accepted texts are handed to.
pub open spec fn is_text_outcome(
    t: TranscriptView,
    texts: CueTexts,
    field: LlmTextField,
    request_id: Seq<char>,
    outcome: Result<TranscriptView, DomainErrorView>,
) -> bool {
    exists|binding: LlmResultBinding, updates: Seq<CueTextUpdate>| #[trigger]
        is_handover(t, texts, field, request_id, binding, updates) && outcome == llm_text_outcome(
            t,
            binding,
            updates,
        )
}

/// Hand accepted texts to a transcript.
pub fn apply_texts(
    transcript: &Transcript,
    texts: &CueTexts,
    field: LlmTextField,
    request_id: &str,
) -> (result: AppResult<Transcript>)
    requires
        texts.in_order(),
    ensures
        match result {
            Ok(out) => is_text_outcome(
                transcript@,
                *texts,
                field,
                request_id@,
                Ok::<TranscriptView, DomainErrorView>(out@),
            ),
            Err(error) => error@ matches ApplicationErrorView::Domain(e) && is_text_outcome(
                transcript@,
                *texts,
                field,
                request_id@,
                Err::<TranscriptView, DomainErrorView>(e),
            ),
        },
{
    let updates = updates_for(texts, transcript, field);
    let binding = LlmResultBinding {
        transcript_revision: transcript.revision,
        field,
        request_id: request_id.to_owned(),
    };
    assert(is_handover(transcript@, *texts, field, request_id@, binding, updates@));
    match transcript.apply_llm_text(&binding, updates.as_slice()) {
        Ok(out) => Ok(out),
        Err(error) => Err(ApplicationError::Domain(error)),
    }
}

/// Mark the cues that were given up, if there are any.
pub fn mark_given_up(transcript: Transcript, degraded: &Vec<u32>) -> (result: AppResult<Transcript>)
    ensures
        match result {
            Ok(out) => with_given_up(transcript@, degraded@) == Ok::<
                TranscriptView,
                DomainErrorView,
            >(out@),
            Err(error) => error@ matches ApplicationErrorView::Domain(e) && with_given_up(
                transcript@,
                degraded@,
            ) == Err::<TranscriptView, DomainErrorView>(e),
        },
{
    if degraded.len() == 0 {
        return Ok(transcript);
    }
    match transcript.mark_llm_failed(degraded.as_slice()) {
        Ok(out) => Ok(out),
        Err(error) => Err(ApplicationError::Domain(error)),
    }
}

/// `out` is the transcript after the correction stage.
pub open spec fn is_correction(
    t: TranscriptView,
    texts: CueTexts,
    degraded: Seq<u32>,
    request_id: Seq<char>,
    out: Result<TranscriptView, DomainErrorView>,
) -> bool {
    exists|outcome: Result<TranscriptView, DomainErrorView>| #[trigger]
        is_text_outcome(t, texts, LlmTextField::Source, request_id, outcome) && out == (
        match outcome {
            Err(error) => Err(error),
            Ok(written) => with_given_up(written, degraded),
        })
}

/// Write the corrected texts, and mark the cues that were given up.
pub fn finish_correct(
    transcript: &Transcript,
    texts: &CueTexts,
    degraded: &Vec<u32>,
    request_id: &str,
) -> (result: AppResult<Transcript>)
    requires
        texts.in_order(),
    ensures
        match result {
            Ok(out) => is_correction(
                transcript@,
                *texts,
                degraded@,
                request_id@,
                Ok::<TranscriptView, DomainErrorView>(out@),
            ),
            Err(error) => error@ matches ApplicationErrorView::Domain(e) && is_correction(
                transcript@,
                *texts,
                degraded@,
                request_id@,
                Err::<TranscriptView, DomainErrorView>(e),
            ),
        },
{
    match apply_texts(transcript, texts, LlmTextField::Source, request_id) {
        Ok(written) => {
            assert(is_text_outcome(
                transcript@,
                *texts,
                LlmTextField::Source,
                request_id@,
                Ok::<TranscriptView, DomainErrorView>(written@),
            ));
            mark_given_up(written, degraded)
        },
        Err(error) => Err(error),
    }
}

/// The translation stage on its way through the cues: every request sees the
/// translations of the one before it.
#[derive(Debug)]
pub struct Wavefront {
    inputs: Vec<CueInput>,
    from: usize,
    index: u32,
    context: Vec<CueInput>,
    working: Transcript,
    entries: Vec<LlmPlanEntry>,
    open: bool,
    degraded: Vec<u32>,
}

/// The state of the translation stage.
pub struct WavefrontView {
    /// All cues, in order.
    pub inputs: Seq<CueInput>,
    /// How many of them have been sent.
    pub from: int,
    /// The number of the next request.
    pub index: u32,
    /// What the next request sees.
    pub context: Seq<CueInput>,
    pub working: TranscriptView,
    /// The requests that have been planned.
    pub entries: Seq<LlmPlanEntry>,
    /// The last of them has no outcome yet.
    pub open: bool,
    pub degraded: Seq<u32>,
}

impl WavefrontView {
    pub open spec fn sound(self) -> bool {
        &&& 0 <= self.from <= self.inputs.len()
        &&& self.open ==> self.entries.len() > 0
    }

    /// The requests that have an outcome.
    pub open spec fn settled(self) -> Seq<LlmPlanEntry> {
        if self.open {
            self.entries.drop_last()
        } else {
            self.entries
        }
    }

    /// `batch` is the planned request without an outcome.
    pub open spec fn awaits(self, batch: BatchInput) -> bool {
        &&& self.open
        &&& self.entries.len() > 0
        &&& self.entries.last().batch_index == batch.index
        &&& self.entries.last().output_cue_ids@ == input_ids(batch.output@)
        &&& 0 <= self.from
        &&& self.from + batch.output@.len() <= self.inputs.len()
    }
}

impl View for Wavefront {
    type V = WavefrontView;

    closed spec fn view(&self) -> WavefrontView {
        WavefrontView {
            inputs: self.inputs@,
            from: self.from as int,
            index: self.index,
            context: self.context@,
            working: self.working@,
            entries: self.entries@,
            open: self.open,
            degraded: self.degraded@,
        }
    }
}

/// The translations that the cues of a request have, as context.
pub open spec fn translated(cues: Seq<Cue>, output: Seq<CueInput>, n: int) -> Seq<(u32, Seq<char>)>
    decreases n,
{
    if n <= 0 {
        seq![]
    } else {
        let front = translated(cues, output, n - 1);
        let id = output[n - 1].id;
        match cue_position(cues, id, 0) {
            Some(p) => match cues[p].translation {
                Some(translation) => front.push((id, translation@)),
                None => front,
            },
            None => front,
        }
    }
}

fn collect_translated(transcript: &Transcript, output: &Vec<CueInput>) -> (context: Vec<CueInput>)
    ensures
        input_views(context@) == translated(transcript.cues@, output@, output@.len() as int),
{
    let mut context: Vec<CueInput> = Vec::new();
    let mut i: usize = 0;
    assert(input_views(context@) =~= seq![]);
    while i < output.len()
        invariant
            i <= output.len(),
            input_views(context@) == translated(transcript.cues@, output@, i as int),
        decreases output.len() - i,
    {
        let id: u32 = output[i].id;
        if let Some(p) = cue_index(&transcript.cues, id) {
            if let Some(translation) = &transcript.cues[p].translation {
                let ghost before = context@;
                context.push(CueInput { id, text: translation.clone() });
                assert(input_views(context@) =~= input_views(before).push((id, translation@)));
            }
        }
        i += 1;
    }
    context
}

impl Wavefront {
    /// Begin the translation stage, which needs a target language.
    pub fn begin(transcript: &Transcript, request: &LlmPipelineRequest) -> (result: AppResult<Self>)
        ensures
            match result {
                Ok(wave) => {
                    &&& request.target_language matches Some(language) && language@.len() > 0
                    &&& input_views(wave@.inputs) == source_views(transcript.cues@)
                    &&& wave@.from == 0
                    &&& wave@.index == 0
                    &&& wave@.context.len() == 0
                    &&& wave@.working == transcript@
                    &&& wave@.entries.len() == 0
                    &&& !wave@.open
                    &&& wave@.degraded.len() == 0
                    &&& wave@.sound()
                },
                Err(error) => !(request.target_language matches Some(language) && language@.len()
                    > 0) && error@ == ApplicationErrorView::Invalid(
                    "translation requires target_language"@,
                ),
            },
    {
        let known = match &request.target_language {
            Some(language) => !language.as_str().is_empty(),
            None => false,
        };
        if !known {
            return Err(ApplicationError::invalid("translation requires target_language"));
        }
        Ok(
            Wavefront {
                inputs: inputs_of(transcript),
                from: 0,
                index: 0,
                context: Vec::new(),
                working: transcript.clone(),
                entries: Vec::new(),
                open: false,
                degraded: Vec::new(),
            },
        )
    }

    /// The transcript as it has been translated so far.
    pub fn working(&self) -> (working: &Transcript)
        ensures
            working@ == self@.working,
    {
        &self.working
    }

    /// Plan the next request, if any cues are left. A planned request that has
    /// no outcome yet is planned anew.
    pub fn next(&mut self, limits: PackLimits) -> (result: AppResult<Option<BatchInput>>)
        requires
            old(self)@.sound(),
        ensures
            final(self)@.sound(),
            match result {
                Ok(None) => old(self)@.from == old(self)@.inputs.len() && final(self)@ == old(
                    self,
                )@,
                Ok(Some(batch)) => {
                    let before = old(self)@;
                    let after = final(self)@;
                    &&& before.from < before.inputs.len()
                    &&& one_batch(before.inputs.skip(before.from), before.context, limits) == Ok::<
                        int,
                        u32,
                    >(batch.output@.len() as int)
                    &&& batch.output@ == before.inputs.subrange(
                        before.from,
                        before.from + batch.output@.len(),
                    )
                    &&& batch.context@ == before.context
                    &&& batch.index == before.index
                    &&& after == (WavefrontView { entries: after.entries, open: true, ..before })
                    &&& after.awaits(batch)
                    &&& after.settled() == before.settled()
                    &&& is_entry(
                        batch,
                        batch_estimate(batch.context@, batch.output@, limits.chars_per_token),
                        limits.output_limit,
                        after.entries.last(),
                    )
                },
                Err(error) => {
                    &&& final(self)@ == old(self)@
                    &&& old(self)@.from < old(self)@.inputs.len()
                    &&& one_batch(
                        old(self)@.inputs.skip(old(self)@.from),
                        old(self)@.context,
                        limits,
                    ) matches Err(id) && error@ == too_large(id)
                },
            },
    {
        if self.from >= self.inputs.len() {
            return Ok(None);
        }
        let remaining = slice_subrange(self.inputs.as_slice(), self.from, self.inputs.len());
        assert(remaining@ =~= self@.inputs.skip(self@.from));
        let batch = match pack_one_batch(remaining, self.context.as_slice(), self.index, limits) {
            Ok(batch) => batch,
            Err(error) => {
                return Err(error);
            },
        };
        assert(batch.output@ =~= self@.inputs.subrange(
            self@.from,
            self@.from + batch.output@.len(),
        ));
        let tokens: u32 = estimate_batch_tokens(&batch, limits.chars_per_token);
        if self.open {
            self.entries.pop();
        }
        let ghost settled = self.entries@;
        assert(settled == old(self)@.settled());
        self.entries.push(plan_entry(&batch, tokens, limits.output_limit));
        self.open = true;
        assert(self.entries@.drop_last() =~= settled);
        Ok(Some(batch))
    }

    /// The plan as far as it is known: with every request that has been sent,
    /// and with the one that is to be sent next.
    pub fn plan(
        &self,
        request: &LlmPipelineRequest,
        plan_id: UlidStr,
        context_limit: u32,
        output_limit: u32,
    ) -> (plan: LlmPlan)
        ensures
            is_plan(*request, context_limit, output_limit, plan),
            plan.stage == request.stage,
            plan.plan_id@ == plan_id@,
            same_entries(plan.entries@, self@.entries),
    {
        plan_with(
            request,
            plan_id.as_str(),
            copy_entries(&self.entries),
            context_limit,
            output_limit,
        )
    }

    /// Take in the outcome of a request: write the accepted translations, and
    /// let the next request see them.
    pub fn record(
        &mut self,
        batch: &BatchInput,
        accepted: &CueTexts,
        degraded: &Vec<u32>,
        request_id: &str,
    ) -> (result: AppResult<()>)
        requires
            accepted.in_order(),
            old(self)@.awaits(*batch),
        ensures
            final(self)@.sound(),
            match result {
                Ok(_) => {
                    let before = old(self)@;
                    let after = final(self)@;
                    &&& is_text_outcome(
                        before.working,
                        *accepted,
                        LlmTextField::Translation,
                        request_id@,
                        Ok::<TranscriptView, DomainErrorView>(after.working),
                    )
                    &&& after.inputs == before.inputs
                    &&& after.from == before.from + batch.output@.len()
                    &&& after.index == counted(before.index)
                    &&& input_views(after.context) == translated(
                        after.working.cues,
                        batch.output@,
                        batch.output@.len() as int,
                    )
                    &&& after.entries == before.entries
                    &&& !after.open
                    &&& after.degraded == before.degraded + degraded@
                },
                Err(error) => {
                    &&& final(self)@ == old(self)@
                    &&& error@ matches ApplicationErrorView::Domain(e) && is_text_outcome(
                        old(self)@.working,
                        *accepted,
                        LlmTextField::Translation,
                        request_id@,
                        Err::<TranscriptView, DomainErrorView>(e),
                    )
                },
            },
    {
        assert(self.inputs@.len() == self.inputs.len());
        let written = match apply_texts(
            &self.working,
            accepted,
            LlmTextField::Translation,
            request_id,
        ) {
            Ok(written) => written,
            Err(error) => {
                return Err(error);
            },
        };
        self.open = false;
        self.context = collect_translated(&written, &batch.output);
        self.working = written;
        self.from = self.from + batch.output.len();
        self.index = self.index.saturating_add(1);
        let ghost before = self.degraded@;
        let mut i: usize = 0;
        while i < degraded.len()
            invariant
                i <= degraded.len(),
                self.degraded@ == before + degraded@.take(i as int),
                self@ == (WavefrontView { degraded: self.degraded@, ..self@ }),
                self.inputs == old(self).inputs,
                self.from == old(self).from + batch.output@.len(),
                self.index == counted(old(self).index),
                self.working@ == written@,
                input_views(self.context@) == translated(
                    written@.cues,
                    batch.output@,
                    batch.output@.len() as int,
                ),
                self.entries == old(self).entries,
                !self.open,
            decreases degraded.len() - i,
        {
            self.degraded.push(degraded[i]);
            i += 1;
            assert(self.degraded@ =~= before + degraded@.take(i as int));
        }
        assert(degraded@.take(i as int) =~= degraded@);
        Ok(())
    }

    /// End the translation stage: the plan of what was sent, and the transcript
    /// with the cues that were given up marked.
    pub fn finish(
        self,
        request: &LlmPipelineRequest,
        plan_id: &str,
        context_limit: u32,
        output_limit: u32,
    ) -> (result: AppResult<LlmPipelineResult>)
        ensures
            match result {
                Ok(out) => {
                    &&& with_given_up(self@.working, self@.degraded) == Ok::<
                        TranscriptView,
                        DomainErrorView,
                    >(out.transcript@)
                    &&& out.degraded_cue_ids@ == self@.degraded
                    &&& is_plan(*request, context_limit, output_limit, out.plan)
                    &&& out.plan.plan_id@ == plan_id@
                    &&& out.plan.entries@ == self@.entries
                },
                Err(error) => error@ matches ApplicationErrorView::Domain(e) && with_given_up(
                    self@.working,
                    self@.degraded,
                ) == Err::<TranscriptView, DomainErrorView>(e),
            },
    {
        let plan = plan_with(request, plan_id, self.entries, context_limit, output_limit);
        match mark_given_up(self.working, &self.degraded) {
            Ok(transcript) => Ok(
                LlmPipelineResult { transcript, plan, degraded_cue_ids: self.degraded },
            ),
            Err(error) => Err(error),
        }
    }
}

/// A plan that is stored before a request has the request in it, behind all
/// those that were stored before.
pub proof fn law_requests_are_planned_before_they_are_sent(
    before: WavefrontView,
    after: WavefrontView,
    batch: BatchInput,
    plan: LlmPlan,
)
    requires
        before.sound(),
        after.awaits(batch),
        after.settled() == before.settled(),
        same_entries(plan.entries@, after.entries),
    ensures
        plan.entries@.len() == before.settled().len() + 1,
        plan.entries@.last().batch_index == batch.index,
        plan.entries@.last().output_cue_ids@ == input_ids(batch.output@),
        same_entries(plan.entries@.drop_last(), before.settled()),
{
    let last = after.entries.len() - 1;
    assert(same_entry(plan.entries@[last], after.entries[last]));
    assert forall|i: int| 0 <= i < last implies same_entry(
        #[trigger] plan.entries@.drop_last()[i],
        before.settled()[i],
    ) by {
        assert(same_entry(plan.entries@[i], after.entries[i]));
        assert(after.settled()[i] == after.entries[i]);
    }
}

/// A stage starts unless it is cancelled or its prompt is that of another stage.
/// Limits are those of the request, else those of the provider, else the usual
/// ones.
pub proof fn law_stages_start_with_their_limits(
    prompt_stage: LlmStage,
    stage: LlmStage,
    a: Option<u32>,
    b: Option<u32>,
    fallback: u32,
)
    ensures
        start_refusal(true, prompt_stage, stage) == Some(ApplicationErrorView::Cancelled),
        start_refusal(false, prompt_stage, stage) is None <==> prompt_stage == stage,
        a matches Some(n) ==> first_known(a, b, fallback) == n,
        a is None ==> (b matches Some(n) ==> first_known(a, b, fallback) == n),
        a is None && b is None ==> first_known(a, b, fallback) == fallback,
{
}

/// A cue is cut by its reply, and by its own text where there is none. The runs
/// of all cues follow each other in the order of the cues.
pub proof fn law_cues_are_cut_in_order(
    words: Seq<Word>,
    cues: Seq<Cue>,
    texts: Map<u32, Seq<char>>,
    n: int,
)
    requires
        0 <= n < cues.len(),
    ensures
        all_ranges(words, cues, texts, 0) == Ok::<Seq<RangeUsize>, Seq<char>>(seq![]),
        ({
            let shown = if texts.contains_key(cues[n].id) {
                texts[cues[n].id]
            } else {
                cues[n].text@
            };
            match (all_ranges(words, cues, texts, n), formatted_ranges(words, cues[n], shown)) {
                (Ok(front), Ok(ranges)) => all_ranges(words, cues, texts, n + 1) == Ok::<
                    Seq<RangeUsize>,
                    Seq<char>,
                >(front + ranges),
                (Ok(_), Err(text)) => all_ranges(words, cues, texts, n + 1) == Err::<
                    Seq<RangeUsize>,
                    Seq<char>,
                >(text),
                (Err(text), _) => all_ranges(words, cues, texts, n + 1) == Err::<
                    Seq<RangeUsize>,
                    Seq<char>,
                >(text),
            }
        }),
{
}

proof fn lemma_given_up(new_cues: Seq<Cue>, cues: Seq<Cue>, degraded: Seq<u32>, n: int, id: u32)
    requires
        0 <= n <= new_cues.len(),
    ensures
        given_up(new_cues, cues, degraded, n).contains(id) <==> exists|k: int|
            0 <= k < n && (#[trigger] new_cues[k]).id == id && (
            new_cues[k].word_range matches Some(range) && in_given_up(range, cues, degraded)),
    decreases n,
{
    if n > 0 {
        lemma_given_up(new_cues, cues, degraded, n - 1, id);
        let front = given_up(new_cues, cues, degraded, n - 1);
        let all = given_up(new_cues, cues, degraded, n);
        let cue = new_cues[n - 1];
        if all.contains(id) {
            let k = choose|k: int| 0 <= k < all.len() && all[k] == id;
            if k < front.len() {
                assert(front[k] == id);
            } else {
                assert(new_cues[n - 1].id == id);
            }
        }
        if front.contains(id) {
            let k = choose|k: int| 0 <= k < front.len() && front[k] == id;
            assert(all[k] == id);
        }
        if all.len() > front.len() {
            assert(all[front.len() as int] == cue.id);
        }
    }
}

/// A new cue is marked where its words were in a cue that was given up, and only
/// there.
pub proof fn law_given_up_words_stay_marked(
    new_cues: Seq<Cue>,
    cues: Seq<Cue>,
    degraded: Seq<u32>,
    id: u32,
)
    ensures
        given_up(new_cues, cues, degraded, new_cues.len() as int).contains(id) <==> exists|k: int|
            0 <= k < new_cues.len() && (#[trigger] new_cues[k]).id == id && (
            new_cues[k].word_range matches Some(range) && in_given_up(range, cues, degraded)),
{
    lemma_given_up(new_cues, cues, degraded, new_cues.len() as int, id);
}

proof fn lemma_wanted_updates(
    order: Seq<u32>,
    texts: Map<u32, Seq<char>>,
    cues: Seq<Cue>,
    field: LlmTextField,
    n: int,
    k: int,
    p: int,
) -> (u: int)
    requires
        0 <= k < n <= order.len(),
        forall|i: int, j: int| 0 <= i < j < order.len() ==> order[i] < order[j],
        cue_position(cues, order[k], 0) == Some(p),
    ensures
        0 <= u < wanted_updates(order, texts, cues, field, n).len(),
        wanted_updates(order, texts, cues, field, n)[u] == (
            order[k],
            field_revision(cues[p], field),
            texts[order[k]],
        ),
        forall|v: int|
            u < v < wanted_updates(order, texts, cues, field, n).len() ==> (
            #[trigger] wanted_updates(order, texts, cues, field, n)[v]).0 != order[k],
    decreases n,
{
    lemma_updates_name_cues(order, texts, cues, field, n - 1);
    let front = wanted_updates(order, texts, cues, field, n - 1);
    if k == n - 1 {
        front.len() as int
    } else {
        let u = lemma_wanted_updates(order, texts, cues, field, n - 1, k, p);
        assert(order[k] < order[n - 1]);
        u
    }
}

proof fn lemma_updates_name_cues(
    order: Seq<u32>,
    texts: Map<u32, Seq<char>>,
    cues: Seq<Cue>,
    field: LlmTextField,
    n: int,
)
    requires
        n <= order.len(),
    ensures
        forall|v: int|
            0 <= v < wanted_updates(order, texts, cues, field, n).len() ==> exists|k: int|
                0 <= k < n && order[k] == (#[trigger] wanted_updates(order, texts, cues, field, n)[v]).0,
    decreases n,
{
    if n > 0 {
        lemma_updates_name_cues(order, texts, cues, field, n - 1);
        let front = wanted_updates(order, texts, cues, field, n - 1);
        let all = wanted_updates(order, texts, cues, field, n);
        assert forall|v: int| 0 <= v < all.len() implies exists|k: int|
            0 <= k < n && order[k] == (#[trigger] all[v]).0 by {
            if v < front.len() {
                assert(front[v] == all[v]);
                let k = choose|k: int| 0 <= k < n - 1 && order[k] == front[v].0;
                assert(order[k] == all[v].0);
            } else {
                assert(order[n - 1] == all[v].0);
            }
        }
    }
}

/// A run of words was given up where it lies inside the words of a cue that was.
pub proof fn law_runs_of_given_up_cues(
    range: RangeUsize,
    cues: Seq<Cue>,
    degraded: Seq<u32>,
    i: int,
    own: RangeUsize,
)
    requires
        0 <= i < cues.len(),
        cues[i].word_range == Some(own),
    ensures
        degraded.contains(cues[i].id) && own.start <= range.start && range.end <= own.end
            ==> in_given_up(range, cues, degraded),
        degraded.len() == 0 ==> !in_given_up(range, cues, degraded),
{
}

/// The texts of an accepted reply are in the transcript afterwards: each cue that
/// has one shows it in the field that was asked for, unless the user owns that
/// field. Nothing is written to the other field.
pub proof fn law_accepted_texts_are_shown(
    t: TranscriptView,
    texts: CueTexts,
    field: LlmTextField,
    request_id: Seq<char>,
    out: TranscriptView,
    p: int,
)
    requires
        texts.in_order(),
        is_text_outcome(
            t,
            texts,
            field,
            request_id,
            Ok::<TranscriptView, DomainErrorView>(out),
        ),
        0 <= p < t.cues.len(),
        forall|i: int| 0 <= i < p ==> (#[trigger] t.cues[i]).id != t.cues[p].id,
        texts@.contains_key(t.cues[p].id),
    ensures
        field == LlmTextField::Source && t.cues[p].text_origin != Some(FieldOrigin::User)
            ==> out.cues[p].text@ == texts@[t.cues[p].id] && out.cues[p].translation
            == t.cues[p].translation,
        field == LlmTextField::Translation && t.cues[p].translation_origin != Some(
            FieldOrigin::User,
        ) ==> (out.cues[p].translation matches Some(shown) && shown@ == texts@[t.cues[p].id])
            && out.cues[p].text == t.cues[p].text,
        out.words == t.words && out.cues.len() == t.cues.len(),
{
    let id = t.cues[p].id;
    let (binding, updates) = choose|binding: LlmResultBinding, updates: Seq<CueTextUpdate>| #[trigger]
        is_handover(t, texts, field, request_id, binding, updates) && Ok::<
            TranscriptView,
            DomainErrorView,
        >(out) == llm_text_outcome(t, binding, updates);
    law_every_key_is_visited(texts, id);
    let order = texts.order();
    let k = choose|k: int| 0 <= k < order.len() && order[k] == id;
    lemma_first_position(t.cues, id, p, 0);
    let n = order.len() as int;
    let wanted = wanted_updates(order, texts@, t.cues, field, n);
    let u = lemma_wanted_updates(order, texts@, t.cues, field, n, k, p);
    assert(update_views(updates)[u] == wanted[u]);
    assert forall|v: int| u < v < updates.len() implies (#[trigger] updates[v]).cue_id
        != updates[u].cue_id by {
        assert(update_views(updates)[v] == wanted[v]);
        assert(wanted[v].0 != order[k]);
    }
    law_accepted_results_are_written(t, binding, updates, out, u, p);
}

/// The next request sees what was translated before it: each translated cue of
/// the last request, in order.
pub proof fn law_translations_go_along(cues: Seq<Cue>, output: Seq<CueInput>, n: int)
    requires
        0 <= n < output.len(),
    ensures
        translated(cues, output, 0) == Seq::<(u32, Seq<char>)>::empty(),
        cue_position(cues, output[n].id, 0) matches Some(p) ==> (
        cues[p].translation matches Some(text) ==> translated(cues, output, n + 1) == translated(
            cues,
            output,
            n,
        ).push((output[n].id, text@))),
        cue_position(cues, output[n].id, 0) matches Some(p) ==> cues[p].translation is None
            ==> translated(cues, output, n + 1) == translated(cues, output, n),
{
}

/// Cues that were given up are marked; where there are none nothing changes.
pub proof fn law_only_given_up_cues_are_marked(t: TranscriptView, ids: Seq<u32>)
    ensures
        ids.len() == 0 ==> with_given_up(t, ids) == Ok::<TranscriptView, DomainErrorView>(t),
        ids.len() > 0 ==> with_given_up(t, ids) == failure_outcome(t, ids),
{
}

/// After a correction the source texts are those of the reply, and the cues that
/// were given up are marked.
pub proof fn law_corrections_are_written_and_marked(
    t: TranscriptView,
    texts: CueTexts,
    degraded: Seq<u32>,
    request_id: Seq<char>,
    out: TranscriptView,
    p: int,
)
    requires
        texts.in_order(),
        is_correction(
            t,
            texts,
            degraded,
            request_id,
            Ok::<TranscriptView, DomainErrorView>(out),
        ),
        forall|i: int, j: int|
            0 <= i < j < t.cues.len() ==> (#[trigger] t.cues[i]).id != (#[trigger] t.cues[j]).id,
        0 <= p < t.cues.len(),
        texts@.contains_key(t.cues[p].id),
        t.cues[p].text_origin != Some(FieldOrigin::User),
    ensures
        out.cues[p].text@ == texts@[t.cues[p].id],
        degraded.contains(t.cues[p].id) ==> out.cues[p].flags.llm_failed,
{
    let outcome = choose|outcome: Result<TranscriptView, DomainErrorView>| #[trigger]
        is_text_outcome(t, texts, LlmTextField::Source, request_id, outcome) && Ok::<
            TranscriptView,
            DomainErrorView,
        >(out) == (match outcome {
            Err(error) => Err(error),
            Ok(written) => with_given_up(written, degraded),
        });
    let written = outcome->Ok_0;
    law_accepted_texts_are_shown(t, texts, LlmTextField::Source, request_id, written, p);
    let (binding, updates) = choose|binding: LlmResultBinding, updates: Seq<CueTextUpdate>| #[trigger]
        is_handover(t, texts, LlmTextField::Source, request_id, binding, updates) && Ok::<
            TranscriptView,
            DomainErrorView,
        >(written) == llm_text_outcome(t, binding, updates);
    law_llm_text_respects_timeline_and_user(t, binding, updates);
    if degraded.len() > 0 {
        assert forall|i: int, j: int| 0 <= i < j < written.cues.len() implies (
        #[trigger] written.cues[i]).id != (#[trigger] written.cues[j]).id by {
            assert(same_place(t.cues[i], written.cues[i]));
            assert(same_place(t.cues[j], written.cues[j]));
            assert(t.cues[i].id != t.cues[j].id);
        }
        law_failure_marks_are_exact(written, degraded, out);
        law_failure_marks_keep_texts(written, degraded);
        assert(same_place(t.cues[p], written.cues[p]));
    }
}

} // verus!
