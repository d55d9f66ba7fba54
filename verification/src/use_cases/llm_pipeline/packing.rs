//! Packing of cues into requests that fit the context of a model.
use vstd::prelude::*;
use vstd::slice::*;
use vstd::string::*;

use crate::contracts::{AppResult, ApplicationError, ApplicationErrorView, ErrorCode, VcErrorView};
use crate::llm::token::{
    estimate_tokens, fits_context, law_messages_are_added_up, law_needs_cover_the_margin,
    messages_estimate, needed_tokens, token_estimate, TOKEN_SAFETY_MARGIN,
};
use crate::text::{decimal, push_decimal};

use super::types::{BatchInput, CueInput};

verus! {

/// What a request may hold.
#[derive(Debug, Clone, Copy, PartialEq, Eq, Structural)]
pub struct PackLimits {
    /// Characters per token, in thousandths.
    pub chars_per_token: i64,
    /// Cues per request.
    pub max_items: usize,
    /// Tokens of input and output together.
    pub context_limit: u32,
    /// Tokens that are set aside for the output.
    pub output_limit: u32,
}

/// The texts of cues.
pub open spec fn input_texts(items: Seq<CueInput>) -> Seq<Seq<char>> {
    Seq::new(items.len(), |i: int| items[i].text@)
}

/// The estimates of all cues together, without an upper bound.
pub open spec fn inputs_estimate(items: Seq<CueInput>, chars_per_token: i64) -> int {
    messages_estimate(input_texts(items), chars_per_token)
}

/// The number, or the largest that the type holds.
pub open spec fn capped(n: int) -> u32 {
    if n > u32::MAX {
        u32::MAX
    } else {
        n as u32
    }
}

/// The estimated input tokens of a request, with a small overhead.
pub open spec fn batch_estimate(
    context: Seq<CueInput>,
    output: Seq<CueInput>,
    chars_per_token: i64,
) -> u32 {
    capped(inputs_estimate(context, chars_per_token) + inputs_estimate(output, chars_per_token) + 16)
}

/// A request with these cues fits.
pub open spec fn batch_fits(
    context: Seq<CueInput>,
    output: Seq<CueInput>,
    limits: PackLimits,
) -> bool {
    needed_tokens(
        batch_estimate(context, output, limits.chars_per_token),
        limits.output_limit,
        TOKEN_SAFETY_MARGIN,
    ) <= limits.context_limit
}

/// How many cues go into a request that holds `n` already: one more as long as
/// there are any, the request may hold more and all of them fit.
pub open spec fn packed_count(
    outputs: Seq<CueInput>,
    context: Seq<CueInput>,
    limits: PackLimits,
    n: int,
) -> int
    decreases outputs.len() - n,
{
    if 0 <= n < outputs.len() && n < limits.max_items && batch_fits(
        context,
        outputs.take(n + 1),
        limits,
    ) {
        packed_count(outputs, context, limits, n + 1)
    } else {
        n
    }
}

/// How many of the first cues go into one request, or the cue that cannot be
/// sent at all.
pub open spec fn one_batch(
    outputs: Seq<CueInput>,
    context: Seq<CueInput>,
    limits: PackLimits,
) -> Result<int, u32> {
    let n = packed_count(outputs, context, limits, 0);
    if n == 0 && outputs.len() > 0 && limits.max_items > 0 {
        Err(outputs[0].id)
    } else {
        Ok(n)
    }
}

/// The error of a cue that cannot be sent.
pub open spec fn too_large(id: u32) -> ApplicationErrorView {
    ApplicationErrorView::Adapter(
        VcErrorView::plain(
            ErrorCode::LlmContextExceeded,
            "cue "@ + decimal(id as nat) + " cannot fit the provider context limit"@,
        ),
    )
}

fn too_large_error(id: u32) -> (error: ApplicationError)
    ensures
        error@ == too_large(id),
{
    let mut text = "cue ".to_owned();
    push_decimal(&mut text, id as u64);
    text.append(" cannot fit the provider context limit");
    assert(text@ =~= "cue "@ + decimal(id as nat) + " cannot fit the provider context limit"@);
    ApplicationError::adapter(ErrorCode::LlmContextExceeded, text.as_str())
}

proof fn lemma_estimate_step(items: Seq<CueInput>, chars_per_token: i64, i: int)
    requires
        0 <= i < items.len(),
    ensures
        inputs_estimate(items.take(i + 1), chars_per_token) == inputs_estimate(
            items.take(i),
            chars_per_token,
        ) + token_estimate(items[i].text@.len(), chars_per_token),
{
    assert(input_texts(items.take(i + 1)).drop_last() =~= input_texts(items.take(i)));
    assert(input_texts(items.take(i + 1)).last() == items[i].text@);
}

proof fn lemma_estimate_bound(items: Seq<CueInput>, chars_per_token: i64)
    ensures
        0 <= inputs_estimate(items, chars_per_token) <= items.len() * 0xFFFF_FFFF,
    decreases items.len(),
{
    if items.len() > 0 {
        let i = items.len() - 1;
        lemma_estimate_bound(items.take(i), chars_per_token);
        lemma_estimate_step(items, chars_per_token, i);
        assert(items.take(i + 1) =~= items);
    } else {
        assert(input_texts(items) =~= seq![]);
    }
}

/// The estimates of all cues together.
fn sum_of_estimates(items: &[CueInput], chars_per_token: i64) -> (sum: u128)
    ensures
        sum == inputs_estimate(items@, chars_per_token),
        sum <= usize::MAX * 0xFFFF_FFFF,
{
    let mut sum: u128 = 0;
    let mut i: usize = 0;
    assert(input_texts(items@.take(0)) =~= seq![]);
    while i < items.len()
        invariant
            i <= items.len(),
            sum == inputs_estimate(items@.take(i as int), chars_per_token),
        decreases items.len() - i,
    {
        proof {
            lemma_estimate_step(items@, chars_per_token, i as int);
            lemma_estimate_bound(items@.take(i as int), chars_per_token);
        }
        sum = sum + estimate_tokens(items[i].text.as_str(), chars_per_token) as u128;
        i += 1;
    }
    proof {
        assert(items@.take(i as int) =~= items@);
        lemma_estimate_bound(items@, chars_per_token);
    }
    sum
}

fn with_overhead(sum: u128) -> (tokens: u32)
    requires
        sum < 0x1_0000_0000_0000_0000_0000_0000_0000,
    ensures
        tokens == capped(sum + 16),
{
    if sum + 16 > 0xFFFF_FFFF {
        u32::MAX
    } else {
        (sum + 16) as u32
    }
}

/// Estimate the input tokens of a request.
pub fn estimate_batch_tokens(batch: &BatchInput, chars_per_token: i64) -> (tokens: u32)
    ensures
        tokens == batch_estimate(batch.context@, batch.output@, chars_per_token),
{
    let context: u128 = sum_of_estimates(batch.context.as_slice(), chars_per_token);
    let output: u128 = sum_of_estimates(batch.output.as_slice(), chars_per_token);
    with_overhead(context + output)
}

/// The cues, each copied.
fn copies(items: &[CueInput], n: usize) -> (out: Vec<CueInput>)
    requires
        n <= items@.len(),
    ensures
        out@ == items@.take(n as int),
{
    let mut out: Vec<CueInput> = Vec::new();
    let mut i: usize = 0;
    while i < n
        invariant
            i <= n <= items@.len(),
            out@ == items@.take(i as int),
        decreases n - i,
    {
        out.push(items[i].clone());
        i += 1;
        assert(out@ =~= items@.take(i as int));
    }
    out
}

/// Pack the next request.
pub fn pack_one_batch(
    outputs: &[CueInput],
    context: &[CueInput],
    index: u32,
    limits: PackLimits,
) -> (result: AppResult<BatchInput>)
    ensures
        match result {
            Ok(batch) => {
                &&& one_batch(outputs@, context@, limits) == Ok::<int, u32>(
                    batch.output@.len() as int,
                )
                &&& batch.output@ == outputs@.take(batch.output@.len() as int)
                &&& batch.output@.len() <= outputs@.len()
                &&& batch.context@ == context@
                &&& batch.index == index
            },
            Err(error) => one_batch(outputs@, context@, limits) matches Err(id) && error@
                == too_large(id),
        },
{
    let context_tokens: u128 = sum_of_estimates(context, limits.chars_per_token);
    let mut output_tokens: u128 = 0;
    let mut n: usize = 0;
    assert(input_texts(outputs@.take(0)) =~= seq![]);
    let ghost all = packed_count(outputs@, context@, limits, 0);
    while n < outputs.len() && n < limits.max_items
        invariant_except_break
            all == packed_count(outputs@, context@, limits, n as int),
        invariant
            n <= outputs@.len(),
            context_tokens == inputs_estimate(context@, limits.chars_per_token),
            context_tokens <= usize::MAX * 0xFFFF_FFFF,
            output_tokens == inputs_estimate(outputs@.take(n as int), limits.chars_per_token),
        ensures
            all == n,
        decreases outputs@.len() - n,
    {
        proof {
            lemma_estimate_step(outputs@, limits.chars_per_token, n as int);
            lemma_estimate_bound(outputs@.take(n as int), limits.chars_per_token);
        }
        let more: u128 = output_tokens + estimate_tokens(
            outputs[n].text.as_str(),
            limits.chars_per_token,
        ) as u128;
        let tokens: u32 = with_overhead(context_tokens + more);
        if !fits_context(tokens, limits.output_limit, limits.context_limit, TOKEN_SAFETY_MARGIN) {
            break;
        }
        output_tokens = more;
        n += 1;
    }
    if n == 0 && outputs.len() > 0 && limits.max_items > 0 {
        return Err(too_large_error(outputs[0].id));
    }
    let context = copies(context, context.len());
    assert(context@ =~= context@.take(context@.len() as int));
    Ok(BatchInput { index, output: copies(outputs, n), context })
}

/// The cues cut into requests from the first to the last, or the cue that
/// cannot be sent.
pub open spec fn packed(
    outputs: Seq<CueInput>,
    context: Seq<CueInput>,
    limits: PackLimits,
) -> Result<Seq<Seq<CueInput>>, u32>
    decreases outputs.len(),
{
    if outputs.len() == 0 {
        Ok(seq![])
    } else {
        match one_batch(outputs, context, limits) {
            Err(id) => Err(id),
            Ok(n) => if 0 < n <= outputs.len() {
                in_front(seq![outputs.take(n)], packed(outputs.skip(n), context, limits))
            } else {
                Ok(seq![])
            },
        }
    }
}

/// The requests of `done` in front of the others, if these could be packed.
pub open spec fn in_front(
    done: Seq<Seq<CueInput>>,
    rest: Result<Seq<Seq<CueInput>>, u32>,
) -> Result<Seq<Seq<CueInput>>, u32> {
    match rest {
        Ok(rest) => Ok(done + rest),
        Err(id) => Err(id),
    }
}

/// The cues of each request.
pub open spec fn batch_outputs(batches: Seq<BatchInput>) -> Seq<Seq<CueInput>> {
    Seq::new(batches.len(), |i: int| batches[i].output@)
}

proof fn lemma_packed_count_bound(
    outputs: Seq<CueInput>,
    context: Seq<CueInput>,
    limits: PackLimits,
    n: int,
)
    requires
        0 <= n <= outputs.len(),
        n <= limits.max_items,
    ensures
        n <= packed_count(outputs, context, limits, n) <= outputs.len(),
        packed_count(outputs, context, limits, n) <= limits.max_items,
        packed_count(outputs, context, limits, n) > n ==> batch_fits(
            context,
            outputs.take(packed_count(outputs, context, limits, n)),
            limits,
        ),
        packed_count(outputs, context, limits, n) < outputs.len() && packed_count(
            outputs,
            context,
            limits,
            n,
        ) < limits.max_items ==> !batch_fits(
            context,
            outputs.take(packed_count(outputs, context, limits, n) + 1),
            limits,
        ),
    decreases outputs.len() - n,
{
    if n < outputs.len() && n < limits.max_items && batch_fits(
        context,
        outputs.take(n + 1),
        limits,
    ) {
        lemma_packed_count_bound(outputs, context, limits, n + 1);
    }
}

/// Pack all cues into requests that are numbered from zero on.
pub fn pack_batches(outputs: &[CueInput], context: &[CueInput], limits: PackLimits) -> (result:
    AppResult<Vec<BatchInput>>)
    requires
        limits.max_items > 0,
    ensures
        match result {
            Ok(batches) => {
                &&& packed(outputs@, context@, limits) == Ok::<Seq<Seq<CueInput>>, u32>(
                    batch_outputs(batches@),
                )
                &&& forall|i: int|
                    0 <= i < batches@.len() ==> {
                        &&& (#[trigger] batches@[i]).index == capped(i)
                        &&& batches@[i].context@ == context@
                    }
            },
            Err(error) => packed(outputs@, context@, limits) matches Err(id) && error@
                == too_large(id),
        },
{
    let mut batches: Vec<BatchInput> = Vec::new();
    let mut from: usize = 0;
    let mut index: u32 = 0;
    proof {
        assert(outputs@.skip(0) =~= outputs@);
        assert(batch_outputs(batches@) =~= seq![]);
        if let Ok(rest) = packed(outputs@, context@, limits) {
            assert(batch_outputs(batches@) + rest =~= rest);
        }
    }
    while from < outputs.len()
        invariant
            from <= outputs@.len(),
            limits.max_items > 0,
            index == capped(batches@.len() as int),
            packed(outputs@, context@, limits) == in_front(
                batch_outputs(batches@),
                packed(outputs@.skip(from as int), context@, limits),
            ),
            forall|i: int|
                0 <= i < batches@.len() ==> {
                    &&& (#[trigger] batches@[i]).index == capped(i)
                    &&& batches@[i].context@ == context@
                },
        decreases outputs@.len() - from,
    {
        let remaining = slice_subrange(outputs, from, outputs.len());
        assert(remaining@ =~= outputs@.skip(from as int));
        proof {
            lemma_packed_count_bound(remaining@, context@, limits, 0);
        }
        let batch = match pack_one_batch(remaining, context, index, limits) {
            Ok(batch) => batch,
            Err(error) => {
                return Err(error);
            },
        };
        let n: usize = batch.output.len();
        let ghost done = batch_outputs(batches@);
        let ghost cut = batch.output@;
        batches.push(batch);
        proof {
            assert(batch_outputs(batches@) =~= done + seq![cut]);
            assert(remaining@.skip(n as int) =~= outputs@.skip(from + n));
            if let Ok(rest) = packed(outputs@.skip(from + n), context@, limits) {
                assert(done + (seq![cut] + rest) =~= (done + seq![cut]) + rest);
            }
        }
        from = from + n;
        index = index.saturating_add(1);
    }
    assert(batch_outputs(batches@) + Seq::<Seq<CueInput>>::empty() =~= batch_outputs(batches@));
    Ok(batches)
}

/// All cues of the requests, one after the other.
pub open spec fn all_cues(batches: Seq<Seq<CueInput>>) -> Seq<CueInput>
    decreases batches.len(),
{
    if batches.len() == 0 {
        seq![]
    } else {
        batches[0] + all_cues(batches.skip(1))
    }
}

/// Packing loses no cue, repeats none and keeps their order.
pub proof fn law_packing_keeps_every_cue(
    outputs: Seq<CueInput>,
    context: Seq<CueInput>,
    limits: PackLimits,
)
    requires
        limits.max_items > 0,
    ensures
        packed(outputs, context, limits) matches Ok(batches) ==> all_cues(batches) == outputs,
    decreases outputs.len(),
{
    if outputs.len() > 0 {
        lemma_packed_count_bound(outputs, context, limits, 0);
        if let Ok(n) = one_batch(outputs, context, limits) {
            law_packing_keeps_every_cue(outputs.skip(n), context, limits);
            if let Ok(rest) = packed(outputs.skip(n), context, limits) {
                let batches = seq![outputs.take(n)] + rest;
                assert(batches.skip(1) =~= rest);
                assert(outputs.take(n) + outputs.skip(n) =~= outputs);
            }
        }
    }
}

/// Every packed request holds a cue, no more cues than allowed, and fits.
pub proof fn law_packed_requests_fit(
    outputs: Seq<CueInput>,
    context: Seq<CueInput>,
    limits: PackLimits,
    i: int,
)
    requires
        limits.max_items > 0,
    ensures
        packed(outputs, context, limits) matches Ok(batches) ==> (0 <= i < batches.len() ==> {
            &&& 0 < batches[i].len() <= limits.max_items
            &&& batch_fits(context, batches[i], limits)
        }),
    decreases outputs.len(),
{
    if outputs.len() > 0 {
        lemma_packed_count_bound(outputs, context, limits, 0);
        if let Ok(n) = one_batch(outputs, context, limits) {
            law_packed_requests_fit(outputs.skip(n), context, limits, i - 1);
        }
    }
}

/// A request is not cut short: where it could hold one more of the cues that
/// are left, that cue would not fit.
pub proof fn law_requests_are_filled(
    outputs: Seq<CueInput>,
    context: Seq<CueInput>,
    limits: PackLimits,
    n: int,
)
    requires
        one_batch(outputs, context, limits) == Ok::<int, u32>(n),
        n < outputs.len(),
        n < limits.max_items,
    ensures
        !batch_fits(context, outputs.take(n + 1), limits),
{
    lemma_packed_count_bound(outputs, context, limits, 0);
}

/// A request fits where its input, with sixteen tokens for the frame, and the
/// output that is set aside for it take no more than the context, with a margin
/// of fifteen percent.
pub proof fn law_fitting_in_plain_terms(
    context: Seq<CueInput>,
    output: Seq<CueInput>,
    limits: PackLimits,
)
    requires
        inputs_estimate(context, limits.chars_per_token) + inputs_estimate(
            output,
            limits.chars_per_token,
        ) + 16 <= u32::MAX,
        0 <= inputs_estimate(context, limits.chars_per_token) + inputs_estimate(
            output,
            limits.chars_per_token,
        ),
    ensures
        batch_fits(context, output, limits) <==> (inputs_estimate(context, limits.chars_per_token)
            + inputs_estimate(output, limits.chars_per_token) + 16 + limits.output_limit) * 115
            <= limits.context_limit * 100,
{
    let estimate = batch_estimate(context, output, limits.chars_per_token);
    law_needs_cover_the_margin(estimate, limits.output_limit, 115);
}

/// Cues are estimated one by one, by their texts.
pub proof fn law_cues_are_estimated_by_their_texts(
    items: Seq<CueInput>,
    next: CueInput,
    chars_per_token: i64,
)
    ensures
        inputs_estimate(seq![], chars_per_token) == 0,
        inputs_estimate(items.push(next), chars_per_token) == inputs_estimate(items, chars_per_token)
            + token_estimate(next.text@.len(), chars_per_token),
{
    assert(input_texts(items.push(next)) =~= input_texts(items).push(next.text@));
    law_messages_are_added_up(input_texts(items), next.text@, chars_per_token);
    assert(input_texts(seq![]) =~= seq![]);
}

/// Where every cue fits by itself all of them are packed. A cue is refused only
/// where it does not fit by itself.
pub proof fn law_fitting_cues_are_packed(
    outputs: Seq<CueInput>,
    context: Seq<CueInput>,
    limits: PackLimits,
)
    requires
        limits.max_items > 0,
    ensures
        (forall|i: int|
            0 <= i < outputs.len() ==> batch_fits(context, seq![#[trigger] outputs[i]], limits))
            ==> packed(outputs, context, limits) is Ok,
        packed(outputs, context, limits) matches Err(id) ==> exists|i: int|
            0 <= i < outputs.len() && (#[trigger] outputs[i]).id == id && !batch_fits(
                context,
                seq![outputs[i]],
                limits,
            ),
    decreases outputs.len(),
{
    if outputs.len() > 0 {
        lemma_packed_count_bound(outputs, context, limits, 0);
        assert(outputs.take(1) =~= seq![outputs[0]]);
        if let Ok(n) = one_batch(outputs, context, limits) {
            let rest = outputs.skip(n);
            law_fitting_cues_are_packed(rest, context, limits);
            if forall|i: int|
                0 <= i < outputs.len() ==> batch_fits(context, seq![#[trigger] outputs[i]], limits) {
                assert forall|i: int| 0 <= i < rest.len() implies batch_fits(
                    context,
                    seq![#[trigger] rest[i]],
                    limits,
                ) by {
                    assert(rest[i] == outputs[n + i]);
                }
            }
            if let Err(id) = packed(outputs, context, limits) {
                let i = choose|i: int|
                    0 <= i < rest.len() && (#[trigger] rest[i]).id == id && !batch_fits(
                        context,
                        seq![rest[i]],
                        limits,
                    );
                assert(outputs[n + i] == rest[i]);
            }
        } else {
            assert(outputs[0].id == outputs[0].id);
        }
    }
}

} // verus!
