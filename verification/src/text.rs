//! Characters, decimal numerals and string assembly.
use vstd::prelude::*;
use vstd::string::*;

verus! {

/// `String::push` of the standard library appends one character at the end.
pub assume_specification[ String::push ](s: &mut String, c: char)
    ensures
        final(s)@ == old(s)@.push(c),
;

/// The characters with the Unicode property `White_Space`.
pub open spec fn whitespace(c: char) -> bool {
    ||| '\u{9}' <= c <= '\u{D}'
    ||| c == ' '
    ||| c == '\u{85}'
    ||| c == '\u{A0}'
    ||| c == '\u{1680}'
    ||| '\u{2000}' <= c <= '\u{200A}'
    ||| c == '\u{2028}'
    ||| c == '\u{2029}'
    ||| c == '\u{202F}'
    ||| c == '\u{205F}'
    ||| c == '\u{3000}'
}

pub fn is_whitespace(c: char) -> (answer: bool)
    ensures
        answer == whitespace(c),
{
    ('\u{9}' <= c && c <= '\u{D}') || c == ' ' || c == '\u{85}' || c == '\u{A0}' || c == '\u{1680}'
        || ('\u{2000}' <= c && c <= '\u{200A}') || c == '\u{2028}' || c == '\u{2029}' || c
        == '\u{202F}' || c == '\u{205F}' || c == '\u{3000}'
}

/// The decimal digit of `d`, for `d` below ten.
pub open spec fn digit(d: nat) -> char {
    ('0' as nat + d) as char
}

/// The decimal numeral of `n`, without leading zeros.
pub open spec fn decimal(n: nat) -> Seq<char>
    decreases n,
{
    if n < 10 {
        seq![digit(n)]
    } else {
        decimal(n / 10).push(digit(n % 10))
    }
}

fn digit_char(d: u8) -> (c: char)
    requires
        d < 10,
    ensures
        c == digit(d as nat),
{
    (48u8 + d) as char
}

/// Append the decimal numeral of `n`.
pub fn push_decimal(out: &mut String, n: u64)
    ensures
        final(out)@ == old(out)@ + decimal(n as nat),
    decreases n,
{
    if n >= 10 {
        push_decimal(out, n / 10);
    }
    out.push(digit_char((n % 10) as u8));
    proof {
        assert(out@ =~= old(out)@ + decimal(n as nat));
    }
}

/// The characters of a string, in order.
pub fn chars_of(s: &str) -> (chars: Vec<char>)
    ensures
        chars@ == s@,
{
    let mut chars: Vec<char> = Vec::new();
    for c in it: s.chars()
        invariant
            it.seq() == s@,
            chars@ == s@.take(it.index()),
    {
        chars.push(c);
        assert(s@.take(it.index() + 1) =~= s@.take(it.index()).push(c));
    }
    assert(s@.take(s@.len() as int) =~= s@);
    chars
}

/// The string made of `chars[from..to]`.
pub fn string_of(chars: &Vec<char>, from: usize, to: usize) -> (s: String)
    requires
        from <= to <= chars.len(),
    ensures
        s@ == chars@.subrange(from as int, to as int),
{
    let mut s = String::new();
    let mut i: usize = from;
    while i < to
        invariant
            from <= i <= to <= chars.len(),
            s@ == chars@.subrange(from as int, i as int),
        decreases to - i,
    {
        s.push(chars[i]);
        i += 1;
        assert(s@ =~= chars@.subrange(from as int, i as int));
    }
    s
}

/// Whether two strings have the same characters.
pub fn same_text(a: &str, b: &str) -> (answer: bool)
    ensures
        answer == (a@ == b@),
{
    a.to_owned() == b.to_owned()
}

/// The text without leading white space.
pub open spec fn trimmed_start(text: Seq<char>) -> Seq<char>
    decreases text.len(),
{
    if text.len() > 0 && whitespace(text[0]) {
        trimmed_start(text.drop_first())
    } else {
        text
    }
}

/// The text without trailing white space.
pub open spec fn trimmed_end(text: Seq<char>) -> Seq<char>
    decreases text.len(),
{
    if text.len() > 0 && whitespace(text.last()) {
        trimmed_end(text.drop_last())
    } else {
        text
    }
}

/// The text without white space at either end.
pub open spec fn trimmed(text: Seq<char>) -> Seq<char> {
    trimmed_end(trimmed_start(text))
}

/// The run of `chars` that is left without white space at either end.
pub fn trimmed_bounds(chars: &Vec<char>) -> (bounds: (usize, usize))
    ensures
        bounds.0 <= bounds.1 <= chars.len(),
        chars@.subrange(bounds.0 as int, bounds.1 as int) == trimmed(chars@),
{
    let mut start: usize = 0;
    let n: usize = chars.len();
    assert(chars@.subrange(0, n as int) =~= chars@);
    while start < n && is_whitespace(chars[start])
        invariant
            start <= n == chars.len(),
            trimmed_start(chars@) == trimmed_start(chars@.subrange(start as int, n as int)),
        decreases n - start,
    {
        start += 1;
        assert(chars@.subrange(start as int, n as int) =~= chars@.subrange(
            start - 1,
            n as int,
        ).drop_first());
    }
    let mut end: usize = n;
    while end > start && is_whitespace(chars[end - 1])
        invariant
            start <= end <= n == chars.len(),
            trimmed(chars@) == trimmed_end(chars@.subrange(start as int, end as int)),
        decreases end,
    {
        end -= 1;
        assert(chars@.subrange(start as int, end as int) =~= chars@.subrange(
            start as int,
            end + 1,
        ).drop_last());
    }
    (start, end)
}

/// The text without white space at either end, as `str::trim` gives it.
pub fn trim(text: &str) -> (out: String)
    ensures
        out@ == trimmed(text@),
{
    let chars = chars_of(text);
    let (start, end) = trimmed_bounds(&chars);
    string_of(&chars, start, end)
}

/// An ASCII capital letter in lower case, any other character as it is.
pub open spec fn lower_char(c: char) -> char {
    if 'A' <= c <= 'Z' {
        (c as nat + 32) as char
    } else {
        c
    }
}

/// The text with ASCII capitals in lower case.
pub open spec fn lower(text: Seq<char>) -> Seq<char> {
    Seq::new(text.len(), |i: int| lower_char(text[i]))
}

fn to_lower_char(c: char) -> (out: char)
    ensures
        out == lower_char(c),
{
    if 'A' <= c && c <= 'Z' {
        ((c as u32) as u8 + 32u8) as char
    } else {
        c
    }
}

/// The text with ASCII capitals in lower case.
pub fn to_lower(text: &str) -> (out: String)
    ensures
        out@ == lower(text@),
{
    let chars = chars_of(text);
    let mut out = String::new();
    let mut i: usize = 0;
    while i < chars.len()
        invariant
            i <= chars.len(),
            chars@ == text@,
            out@ == lower(text@).take(i as int),
        decreases chars.len() - i,
    {
        out.push(to_lower_char(chars[i]));
        i += 1;
        assert(out@ =~= lower(text@).take(i as int));
    }
    assert(lower(text@).take(i as int) =~= lower(text@));
    out
}

/// `needle` stands in `text` at position `i`.
pub open spec fn stands_at(text: Seq<char>, needle: Seq<char>, i: int) -> bool {
    0 <= i && i + needle.len() <= text.len() && text.subrange(i, i + needle.len()) == needle
}

/// The first position from `from` on at which `needle` stands in `text`.
pub open spec fn position_of(text: Seq<char>, needle: Seq<char>, from: int) -> Option<int>
    decreases text.len() - from,
{
    if from < 0 || from + needle.len() > text.len() {
        None
    } else if stands_at(text, needle, from) {
        Some(from)
    } else if from == text.len() {
        None
    } else {
        position_of(text, needle, from + 1)
    }
}

pub fn is_at(text: &Vec<char>, needle: &Vec<char>, i: usize) -> (answer: bool)
    ensures
        answer == stands_at(text@, needle@, i as int),
{
    if needle.len() > text.len() || i > text.len() - needle.len() {
        return false;
    }
    let mut k: usize = 0;
    while k < needle.len()
        invariant
            k <= needle.len(),
            i + needle.len() <= text.len(),
            forall|j: int| 0 <= j < k ==> text@[i + j] == #[trigger] needle@[j],
        decreases needle.len() - k,
    {
        if text[i + k] != needle[k] {
            assert(text@.subrange(i as int, i + needle@.len())[k as int] != needle@[k as int]);
            return false;
        }
        k += 1;
    }
    assert(text@.subrange(i as int, i + needle@.len()) =~= needle@);
    true
}

/// Search `text` from `from` on.
pub fn find_in(text: &Vec<char>, needle: &Vec<char>, from: usize) -> (found: Option<usize>)
    ensures
        match found {
            Some(i) => position_of(text@, needle@, from as int) == Some(i as int) && from <= i && i
                + needle.len() <= text.len(),
            None => position_of(text@, needle@, from as int) is None,
        },
{
    if needle.len() > text.len() {
        return None;
    }
    let last: usize = text.len() - needle.len();
    let mut i: usize = from;
    while i <= last
        invariant
            from <= i,
            last == text.len() - needle.len(),
            position_of(text@, needle@, from as int) == position_of(text@, needle@, i as int),
        decreases last + 1 - i,
    {
        if is_at(text, needle, i) {
            return Some(i);
        }
        if i == text.len() {
            return None;
        }
        i += 1;
    }
    None
}

/// All characters are decimal digits.
pub open spec fn all_digits(text: Seq<char>) -> bool {
    forall|i: int| 0 <= i < text.len() ==> '0' <= (#[trigger] text[i]) <= '9'
}

/// The number that a sequence of decimal digits denotes.
pub open spec fn digits_value(text: Seq<char>) -> nat
    decreases text.len(),
{
    if text.len() == 0 {
        0
    } else {
        digits_value(text.drop_last()) * 10 + (text.last() as nat - '0' as nat) as nat
    }
}

/// The unsigned number up to `max` that a text denotes: decimal digits, with
/// an optional plus sign in front.
pub open spec fn unsigned_value(text: Seq<char>, max: nat) -> Option<nat> {
    let digits = if text.len() > 0 && text[0] == '+' {
        text.drop_first()
    } else {
        text
    };
    if digits.len() > 0 && all_digits(digits) && digits_value(digits) <= max {
        Some(digits_value(digits))
    } else {
        None
    }
}

proof fn lemma_digits_value_grows(text: Seq<char>, n: int)
    requires
        0 <= n <= text.len(),
        all_digits(text),
    ensures
        digits_value(text.take(n)) <= digits_value(text),
    decreases text.len() - n,
{
    if n < text.len() {
        lemma_digits_value_grows(text, n + 1);
        assert(text.take(n + 1).drop_last() =~= text.take(n));
    } else {
        assert(text.take(n) =~= text);
    }
}

/// Read an unsigned number, as `u64::from_str` does.
pub fn parse_u64(text: &str) -> (value: Option<u64>)
    ensures
        match value {
            Some(n) => unsigned_value(text@, u64::MAX as nat) == Some(n as nat),
            None => unsigned_value(text@, u64::MAX as nat) is None,
        },
{
    let chars = chars_of(text);
    let start: usize = if chars.len() > 0 && chars[0] == '+' {
        1
    } else {
        0
    };
    let ghost digits = chars@.subrange(start as int, chars@.len() as int);
    assert(start == 0 ==> digits =~= chars@);
    assert(start == 1 ==> digits =~= chars@.drop_first());
    if start == chars.len() {
        return None;
    }
    let mut value: u64 = 0;
    let mut i: usize = start;
    assert(digits.take(0) =~= seq![]);
    while i < chars.len()
        invariant
            start <= i <= chars.len(),
            digits == chars@.subrange(start as int, chars@.len() as int),
            digits.len() > 0,
            unsigned_value(chars@, u64::MAX as nat) == (if all_digits(digits) && digits_value(
                digits,
            ) <= u64::MAX {
                Some(digits_value(digits))
            } else {
                None
            }),
            chars@ == text@,
            all_digits(digits.take(i - start)),
            value == digits_value(digits.take(i - start)),
        decreases chars.len() - i,
    {
        let c = chars[i];
        assert(digits[i - start] == c);
        if c < '0' || c > '9' {
            assert(!all_digits(digits));
            return None;
        }
        let d: u64 = (c as u64) - ('0' as u64);
        assert(digits.take(i + 1 - start).drop_last() =~= digits.take(i - start));
        assert(digits.take(i + 1 - start).last() == c);
        if value > (u64::MAX - d) / 10 {
            proof {
                if all_digits(digits) {
                    lemma_digits_value_grows(digits, i + 1 - start);
                    assert(value * 10 + d > u64::MAX);
                }
            }
            return None;
        }
        value = value * 10 + d;
        i += 1;
        assert(all_digits(digits.take(i - start))) by {
            assert forall|k: int| 0 <= k < i - start implies '0' <= (#[trigger] digits.take(
                i - start,
            )[k]) <= '9' by {
                if k < i - 1 - start {
                    assert(digits.take(i - 1 - start)[k] == digits[k]);
                }
            }
        }
    }
    assert(digits.take(i - start) =~= digits);
    Some(value)
}

/// The numeral of a signed number.
pub open spec fn signed_decimal(n: int) -> Seq<char> {
    if n < 0 {
        seq!['-'] + decimal((-n) as nat)
    } else {
        decimal(n as nat)
    }
}

/// Append the numeral of a signed number.
pub fn push_signed(out: &mut String, n: i64)
    ensures
        final(out)@ == old(out)@ + signed_decimal(n as int),
{
    if n < 0 {
        out.push('-');
        let magnitude: u64 = (-(n as i128)) as u64;
        push_decimal(out, magnitude);
        assert(out@ =~= old(out)@ + signed_decimal(n as int));
    } else {
        push_decimal(out, n as u64);
    }
}

/// The text without the character `c` at its end, however often it stands there.
pub open spec fn without_trailing(text: Seq<char>, c: char) -> Seq<char>
    decreases text.len(),
{
    if text.len() > 0 && text.last() == c {
        without_trailing(text.drop_last(), c)
    } else {
        text
    }
}

/// The text without the character `c` at its end.
pub fn strip_trailing(text: &str, c: char) -> (out: String)
    ensures
        out@ == without_trailing(text@, c),
{
    let chars = chars_of(text);
    let mut end: usize = chars.len();
    assert(chars@.subrange(0, end as int) =~= chars@);
    while end > 0 && chars[end - 1] == c
        invariant
            end <= chars.len(),
            without_trailing(chars@, c) == without_trailing(chars@.subrange(0, end as int), c),
        decreases end,
    {
        end -= 1;
        assert(chars@.subrange(0, end as int) =~= chars@.subrange(0, end + 1).drop_last());
    }
    string_of(&chars, 0, end)
}

/// The text ends with `suffix`.
pub open spec fn has_suffix(text: Seq<char>, suffix: Seq<char>) -> bool {
    stands_at(text, suffix, text.len() - suffix.len())
}

pub fn ends_with(text: &str, suffix: &str) -> (answer: bool)
    ensures
        answer == has_suffix(text@, suffix@),
{
    let a = chars_of(text);
    let b = chars_of(suffix);
    if b.len() > a.len() {
        return false;
    }
    is_at(&a, &b, a.len() - b.len())
}

/// The texts one after the other, with `separator` in between.
pub open spec fn joined_with(texts: Seq<Seq<char>>, separator: Seq<char>) -> Seq<char>
    decreases texts.len(),
{
    if texts.len() == 0 {
        seq![]
    } else if texts.len() == 1 {
        texts[0]
    } else {
        joined_with(texts.drop_last(), separator) + separator + texts.last()
    }
}

pub open spec fn text_views(texts: Seq<String>) -> Seq<Seq<char>> {
    Seq::new(texts.len(), |i: int| texts[i]@)
}

/// The texts one after the other, with `separator` in between.
pub fn join_with(texts: &Vec<String>, separator: &str) -> (out: String)
    ensures
        out@ == joined_with(text_views(texts@), separator@),
{
    let ghost views = text_views(texts@);
    let mut out = String::new();
    let mut i: usize = 0;
    assert(views.take(0) =~= seq![]);
    while i < texts.len()
        invariant
            i <= texts.len(),
            views == text_views(texts@),
            out@ == joined_with(views.take(i as int), separator@),
        decreases texts.len() - i,
    {
        assert(views.take(i + 1).drop_last() =~= views.take(i as int));
        if i > 0 {
            out.append(separator);
        }
        out.append(texts[i].as_str());
        i += 1;
        assert(out@ =~= joined_with(views.take(i as int), separator@));
    }
    assert(views.take(i as int) =~= views);
    out
}

/// The white space characters: tab to carriage return, the spaces of all widths,
/// and the separators of lines and paragraphs.
pub proof fn law_white_space_characters(c: char)
    ensures
        whitespace(' ') && whitespace('\t') && whitespace('\n') && whitespace('\r'),
        '\u{9}' <= c <= '\u{D}' || '\u{2000}' <= c <= '\u{200A}' || c == '\u{85}' || c == '\u{A0}'
            || c == '\u{1680}' || c == '\u{2028}' || c == '\u{2029}' || c == '\u{202F}' || c
            == '\u{205F}' || c == '\u{3000}' ==> whitespace(c),
        '!' <= c <= '~' ==> !whitespace(c),
        '\u{A1}' <= c <= '\u{167F}' ==> !whitespace(c),
        '\u{200B}' <= c <= '\u{2027}' ==> !whitespace(c),
        c > '\u{3000}' ==> !whitespace(c),
{
}

proof fn lemma_start_is_cut(space: Seq<char>, rest: Seq<char>)
    requires
        forall|i: int| 0 <= i < space.len() ==> whitespace(#[trigger] space[i]),
        rest.len() > 0,
        !whitespace(rest[0]),
    ensures
        trimmed_start(space + rest) == rest,
    decreases space.len(),
{
    if space.len() > 0 {
        assert((space + rest).drop_first() =~= space.drop_first() + rest);
        assert forall|i: int| 0 <= i < space.drop_first().len() implies whitespace(
            #[trigger] space.drop_first()[i],
        ) by {
            assert(whitespace(space[i + 1]));
        }
        assert(whitespace(space[0]));
        lemma_start_is_cut(space.drop_first(), rest);
    } else {
        assert(space + rest =~= rest);
    }
}

proof fn lemma_end_is_cut(rest: Seq<char>, space: Seq<char>)
    requires
        forall|i: int| 0 <= i < space.len() ==> whitespace(#[trigger] space[i]),
        rest.len() > 0,
        !whitespace(rest.last()),
    ensures
        trimmed_end(rest + space) == rest,
    decreases space.len(),
{
    if space.len() > 0 {
        assert((rest + space).drop_last() =~= rest + space.drop_last());
        assert forall|i: int| 0 <= i < space.drop_last().len() implies whitespace(
            #[trigger] space.drop_last()[i],
        ) by {
            assert(whitespace(space[i]));
        }
        assert(whitespace(space[space.len() - 1]));
        lemma_end_is_cut(rest, space.drop_last());
    } else {
        assert(rest + space =~= rest);
    }
}

/// Trimming takes away the white space in front and behind, and nothing else.
pub proof fn law_trimming_takes_the_edges(front: Seq<char>, text: Seq<char>, end: Seq<char>)
    requires
        forall|i: int| 0 <= i < front.len() ==> whitespace(#[trigger] front[i]),
        forall|i: int| 0 <= i < end.len() ==> whitespace(#[trigger] end[i]),
        text.len() > 0,
        !whitespace(text[0]),
        !whitespace(text.last()),
    ensures
        trimmed(front + text + end) == text,
{
    assert(front + text + end =~= front + (text + end));
    lemma_start_is_cut(front, text + end);
    lemma_end_is_cut(text, end);
}

/// A number can be read back from its numeral, which has digits only and no zero
/// in front of others.
pub proof fn law_numerals_are_read_back(n: nat)
    ensures
        digits_value(decimal(n)) == n,
        decimal(n).len() > 0,
        forall|i: int| 0 <= i < decimal(n).len() ==> '0' <= #[trigger] decimal(n)[i] <= '9',
        n > 0 ==> decimal(n)[0] != '0',
        n < 10 ==> decimal(n).len() == 1,
    decreases n,
{
    let d = digit(n % 10);
    assert(d as nat == '0' as nat + n % 10);
    if n >= 10 {
        law_numerals_are_read_back(n / 10);
        assert(decimal(n).drop_last() =~= decimal(n / 10));
    } else {
        assert(seq![digit(n)].drop_last() =~= seq![]);
        assert(digits_value(seq![]) == 0);
    }
}

/// A numeral is read as the number it stands for, with or without a plus sign in
/// front, unless it is too great. A text with anything but digits is no number.
pub proof fn law_numbers_are_read(text: Seq<char>, n: nat, max: nat, k: int)
    ensures
        n <= max ==> unsigned_value(decimal(n), max) == Some(n),
        n > max ==> unsigned_value(decimal(n), max) is None,
        n <= max ==> unsigned_value(seq!['+'] + decimal(n), max) == Some(n),
        unsigned_value(seq![], max) is None,
        0 <= k < text.len() && !('0' <= text[k] <= '9') && (k > 0 || text[k] != '+')
            ==> unsigned_value(text, max) is None,
{
    law_numerals_are_read_back(n);
    assert(decimal(n)[0] != '+');
    assert((seq!['+'] + decimal(n)).drop_first() =~= decimal(n));
    assert(all_digits(decimal(n)));
    if 0 <= k < text.len() && !('0' <= text[k] <= '9') && (k > 0 || text[k] != '+') {
        if text[0] == '+' {
            assert(text.drop_first()[k - 1] == text[k]);
        }
    }
}

/// A negative number has a sign in front of its numeral.
pub proof fn law_negative_numbers_have_a_sign(n: int)
    ensures
        n >= 0 ==> signed_decimal(n) == decimal(n as nat),
        n < 0 ==> signed_decimal(n) == seq!['-'] + decimal((-n) as nat),
{
}

/// Lower case changes the letters A to Z and leaves all else.
pub proof fn law_lower_case(text: Seq<char>, i: int)
    requires
        0 <= i < text.len(),
    ensures
        lower(text).len() == text.len(),
        'A' <= text[i] <= 'Z' ==> lower(text)[i] as int == text[i] as int - 'A' as int + 'a' as int,
        !('A' <= text[i] <= 'Z') ==> lower(text)[i] == text[i],
        lower(lower(text)) == lower(text),
{
    assert(lower(lower(text)) =~= lower(text)) by {
        assert forall|k: int| 0 <= k < text.len() implies lower(lower(text))[k] == lower(text)[k] by {
            if 'A' <= text[k] <= 'Z' {
                assert('a' <= lower_char(text[k]) <= 'z');
            }
        }
    }
}

/// The place that is found is the first from the start on at which the text
/// stands. Where none is found it stands nowhere.
pub proof fn law_the_first_place_is_found(text: Seq<char>, needle: Seq<char>, from: int)
    requires
        0 <= from,
    ensures
        match position_of(text, needle, from) {
            Some(p) => {
                &&& from <= p && p + needle.len() <= text.len()
                &&& text.subrange(p, p + needle.len()) == needle
                &&& forall|i: int| from <= i < p ==> !#[trigger] stands_at(text, needle, i)
            },
            None => forall|i: int| from <= i ==> !#[trigger] stands_at(text, needle, i),
        },
        forall|i: int| #[trigger]
            stands_at(text, needle, i) ==> 0 <= i && i + needle.len() <= text.len()
                && text.subrange(i, i + needle.len()) == needle,
    decreases text.len() - from,
{
    if from + needle.len() <= text.len() && from < text.len() && !stands_at(text, needle, from) {
        law_the_first_place_is_found(text, needle, from + 1);
    }
}

/// Taking a character off the end takes all of its kind and nothing else.
pub proof fn law_trailing_characters_are_cut(text: Seq<char>, c: char)
    ensures
        ({
            let rest = without_trailing(text, c);
            &&& rest.len() <= text.len()
            &&& text.take(rest.len() as int) == rest
            &&& rest.len() > 0 ==> rest.last() != c
            &&& forall|i: int| rest.len() <= i < text.len() ==> #[trigger] text[i] == c
        }),
    decreases text.len(),
{
    if text.len() > 0 && text.last() == c {
        law_trailing_characters_are_cut(text.drop_last(), c);
        let rest = without_trailing(text, c);
        assert(text.take(rest.len() as int) =~= text.drop_last().take(rest.len() as int));
        assert forall|i: int| rest.len() <= i < text.len() implies #[trigger] text[i] == c by {
            if i < text.len() - 1 {
                assert(text.drop_last()[i] == text[i]);
            }
        }
    } else {
        assert(text.take(text.len() as int) =~= text);
    }
}

/// A text ends in another where it is some text with the other behind it.
pub proof fn law_endings(text: Seq<char>, front: Seq<char>, ending: Seq<char>)
    ensures
        has_suffix(front + ending, ending),
        has_suffix(text, ending) ==> text.len() >= ending.len() && text.take(
            text.len() - ending.len(),
        ) + ending == text,
{
    let whole = front + ending;
    assert(whole.subrange(whole.len() - ending.len(), whole.len() as int) =~= ending);
    if has_suffix(text, ending) {
        assert(text.take(text.len() - ending.len()) + ending =~= text);
    }
}

/// Joined texts follow each other with the separator between two of them.
pub proof fn law_separators_stand_between(
    texts: Seq<Seq<char>>,
    next: Seq<char>,
    separator: Seq<char>,
)
    ensures
        joined_with(seq![], separator) == Seq::<char>::empty(),
        joined_with(seq![next], separator) == next,
        texts.len() > 0 ==> joined_with(texts.push(next), separator) == joined_with(texts, separator)
            + separator + next,
{
    assert(texts.push(next).drop_last() =~= texts);
}

} // verus!
