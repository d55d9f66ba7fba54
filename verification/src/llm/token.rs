//! Conservative token estimation without an official tokenizer.
use vstd::prelude::*;

verus! {

/// Characters per token, in thousandths, where nothing better is known.
pub const DEFAULT_CHARS_PER_TOKEN: i64 = 3500;

/// Safety margin on estimated input and reserved output, in percent.
pub const TOKEN_SAFETY_MARGIN: u32 = 115;

/// The ratio to go by: a ratio that is not positive counts as unknown.
pub open spec fn effective_ratio(chars_per_token: i64) -> int {
    if chars_per_token <= 0 {
        DEFAULT_CHARS_PER_TOKEN as int
    } else {
        chars_per_token as int
    }
}

/// The least integer that is not below `a / b`.
pub open spec fn ceil_div(a: int, b: int) -> int {
    (a + b - 1) / b
}

/// The estimate for a text of `chars` characters: rounded up, at least one
/// token, and no more than fits the type.
pub open spec fn token_estimate(chars: nat, chars_per_token: i64) -> u32 {
    let exact = ceil_div((chars * 1000) as int, effective_ratio(chars_per_token));
    if exact < 1 {
        1
    } else if exact > u32::MAX {
        u32::MAX
    } else {
        exact as u32
    }
}

/// Estimate the tokens of a text. The ratio is in thousandths of a character.
pub fn estimate_tokens(text: &str, chars_per_token: i64) -> (tokens: u32)
    ensures
        tokens == token_estimate(text@.len(), chars_per_token),
{
    let ratio: u128 = if chars_per_token <= 0 {
        3500
    } else {
        chars_per_token as u128
    };
    let chars: u128 = text.unicode_len() as u128;
    let exact: u128 = (chars * 1000 + ratio - 1) / ratio;
    if exact < 1 {
        1
    } else if exact > 0xFFFF_FFFF {
        u32::MAX
    } else {
        exact as u32
    }
}

/// The estimates of all messages together.
pub open spec fn messages_estimate(messages: Seq<Seq<char>>, chars_per_token: i64) -> int
    decreases messages.len(),
{
    if messages.len() == 0 {
        0
    } else {
        messages_estimate(messages.drop_last(), chars_per_token) + token_estimate(
            messages.last().len(),
            chars_per_token,
        )
    }
}

proof fn lemma_estimate_grows(messages: Seq<Seq<char>>, chars_per_token: i64, n: int)
    requires
        0 <= n <= messages.len(),
    ensures
        0 <= messages_estimate(messages.take(n), chars_per_token) <= messages_estimate(
            messages,
            chars_per_token,
        ),
    decreases messages.len() - n,
{
    lemma_estimate_is_positive(messages.take(n), chars_per_token);
    if n < messages.len() {
        lemma_estimate_grows(messages, chars_per_token, n + 1);
        assert(messages.take(n + 1).drop_last() =~= messages.take(n));
    } else {
        assert(messages.take(n) =~= messages);
    }
}

proof fn lemma_estimate_is_positive(messages: Seq<Seq<char>>, chars_per_token: i64)
    ensures
        0 <= messages_estimate(messages, chars_per_token),
    decreases messages.len(),
{
    if messages.len() > 0 {
        lemma_estimate_is_positive(messages.drop_last(), chars_per_token);
    }
}

/// Estimate the tokens of a list of message contents, with a small overhead.
pub fn estimate_messages_tokens(messages: &[&str], chars_per_token: i64) -> (tokens: u32)
    requires
        messages_estimate(Seq::new(messages@.len(), |i: int| messages@[i]@), chars_per_token)
            <= u32::MAX,
    ensures
        tokens == ({
            let sum = messages_estimate(
                Seq::new(messages@.len(), |i: int| messages@[i]@),
                chars_per_token,
            );
            if sum + 4 <= u32::MAX {
                sum + 4
            } else {
                u32::MAX as int
            }
        }),
{
    let ghost texts = Seq::new(messages@.len(), |i: int| messages@[i]@);
    let mut sum: u32 = 0;
    let mut i: usize = 0;
    assert(texts.take(0) =~= seq![]);
    while i < messages.len()
        invariant
            i <= messages.len(),
            texts == Seq::new(messages@.len(), |i: int| messages@[i]@),
            messages_estimate(texts, chars_per_token) <= u32::MAX,
            sum == messages_estimate(texts.take(i as int), chars_per_token),
        decreases messages.len() - i,
    {
        proof {
            lemma_estimate_grows(texts, chars_per_token, i + 1);
            assert(texts.take(i + 1).drop_last() =~= texts.take(i as int));
        }
        sum = sum + estimate_tokens(messages[i], chars_per_token);
        i += 1;
    }
    assert(texts.take(i as int) =~= texts);
    sum.saturating_add(4)
}

/// The tokens that a request needs: input and output, widened by the margin
/// and rounded up.
pub open spec fn needed_tokens(input: u32, output: u32, margin_percent: u32) -> int {
    ceil_div((input + output) * margin_percent, 100)
}

/// Whether estimated input, reserved output and margin fit the context.
pub fn fits_context(
    estimated_input: u32,
    reserved_output: u32,
    max_context: u32,
    safety_margin: u32,
) -> (fits: bool)
    ensures
        fits == (needed_tokens(estimated_input, reserved_output, safety_margin) <= max_context),
{
    let sum: u128 = estimated_input as u128 + reserved_output as u128;
    proof {
        assert(sum * safety_margin <= 0x1_FFFF_FFFE * 0xFFFF_FFFF) by (nonlinear_arith)
            requires
                sum <= 0x1_FFFF_FFFE,
                safety_margin <= 0xFFFF_FFFF,
        ;
    }
    let needed: u128 = (sum * safety_margin as u128 + 99) / 100;
    needed <= max_context as u128
}

/// More text never has a smaller estimate.
pub proof fn law_estimate_is_monotonic(shorter: nat, longer: nat, chars_per_token: i64)
    requires
        shorter <= longer,
    ensures
        token_estimate(shorter, chars_per_token) <= token_estimate(longer, chars_per_token),
{
    let b = effective_ratio(chars_per_token);
    vstd::arithmetic::div_mod::lemma_div_is_ordered(shorter * 1000 + b - 1, longer * 1000 + b - 1, b);
}

/// What fits a context also fits a larger one, and with less input or output.
pub proof fn law_fitting_is_monotonic(
    input: u32,
    output: u32,
    smaller_input: u32,
    smaller_output: u32,
    margin_percent: u32,
)
    requires
        smaller_input <= input,
        smaller_output <= output,
    ensures
        needed_tokens(smaller_input, smaller_output, margin_percent) <= needed_tokens(
            input,
            output,
            margin_percent,
        ),
{
    let a = (smaller_input + smaller_output) * margin_percent;
    let b = (input + output) * margin_percent;
    assert(a <= b) by (nonlinear_arith)
        requires
            smaller_input <= input,
            smaller_output <= output,
            a == (smaller_input + smaller_output) * margin_percent,
            b == (input + output) * margin_percent,
    ;
    vstd::arithmetic::div_mod::lemma_div_is_ordered(a + 99, b + 99, 100);
}

/// The estimate is the least number of tokens that holds all characters, and at
/// least one. Without a sensible ratio there are three and a half characters to
/// a token.
pub proof fn law_estimates_hold_the_text(chars: nat, ratio: i64)
    requires
        0 < ratio,
        chars * 1000 < u32::MAX,
    ensures
        token_estimate(chars, ratio) >= 1,
        token_estimate(chars, ratio) * ratio >= chars * 1000,
        chars > 0 ==> (token_estimate(chars, ratio) - 1) * ratio < chars * 1000,
        forall|other: i64| other <= 0 ==> #[trigger] token_estimate(chars, other) == token_estimate(
            chars,
            3500,
        ),
{
    let a = (chars * 1000) as int;
    let r = ratio as int;
    lemma_ceil(a, r);
    let exact = ceil_div(a, r);
    assert(exact <= a) by (nonlinear_arith)
        requires
            exact >= 0,
            a >= 0,
            r >= 1,
            exact > 0 ==> (exact - 1) * r < a,
    ;
    if chars == 0 {
        assert(exact <= 0) by (nonlinear_arith)
            requires
                a == 0,
                r >= 1,
                exact > 0 ==> (exact - 1) * r < a,
        ;
        assert(1 * r >= 0);
    } else {
        assert(exact >= 1) by (nonlinear_arith)
            requires
                exact * r >= a,
                a > 0,
                r >= 1,
        ;
    }
}

proof fn lemma_ceil(a: int, b: int)
    requires
        0 <= a,
        0 < b,
    ensures
        ceil_div(a, b) >= 0,
        ceil_div(a, b) * b >= a,
        ceil_div(a, b) > 0 ==> (ceil_div(a, b) - 1) * b < a,
{
    let q = ceil_div(a, b);
    vstd::arithmetic::div_mod::lemma_fundamental_div_mod(a + b - 1, b);
    vstd::arithmetic::div_mod::lemma_mod_bound(a + b - 1, b);
    vstd::arithmetic::div_mod::lemma_div_pos_is_pos(a + b - 1, b);
    let m = (a + b - 1) % b;
    assert(q * b + m == a + b - 1) by (nonlinear_arith)
        requires
            a + b - 1 == b * q + m,
    ;
    assert((q - 1) * b == q * b - b) by (nonlinear_arith);
}

/// The need is the least number of tokens that covers input and output with the
/// margin in percent.
pub proof fn law_needs_cover_the_margin(input: u32, output: u32, margin: u32)
    ensures
        needed_tokens(input, output, margin) * 100 >= (input + output) * margin,
        (needed_tokens(input, output, margin) - 1) * 100 < (input + output) * margin,
{
    let a = (input + output) * margin;
    assert(a >= 0) by (nonlinear_arith)
        requires
            a == (input + output) * margin,
    ;
    lemma_ceil(a, 100);
    if needed_tokens(input, output, margin) == 0 {
        assert((0int - 1) * 100 < a);
    }
}

/// Messages are estimated one by one.
pub proof fn law_messages_are_added_up(messages: Seq<Seq<char>>, next: Seq<char>, ratio: i64)
    ensures
        messages_estimate(seq![], ratio) == 0,
        messages_estimate(messages.push(next), ratio) == messages_estimate(messages, ratio)
            + token_estimate(next.len(), ratio),
{
    assert(messages.push(next).drop_last() =~= messages);
}

} // verus!
