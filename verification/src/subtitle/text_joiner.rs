//! Language-aware text assembly: spaces between Latin words, none between CJK
//! characters, and punctuation attached to the word it belongs to.
use unicode_normalization::UnicodeNormalization;
use vstd::prelude::*;
use vstd::slice::*;
use vstd::string::*;

use super::transcript::Word;

verus! {

/// What the crate `unicode-normalization` gives for the canonical composition
/// (form NFC) of a character sequence.
pub uninterp spec fn nfc(text: Seq<char>) -> Seq<char>;

/// `UnicodeNormalization::nfc` of the crate `unicode-normalization`: the
/// canonical composition of `text`, which depends on `text` alone.
#[verifier::external_body]
fn to_nfc(text: &str) -> (normalized: String)
    ensures
        normalized@ == nfc(text@),
{
    text.nfc().collect()
}

pub open spec fn cjk(c: char) -> bool {
    ||| '\u{3040}' <= c <= '\u{30FF}'
    ||| '\u{3400}' <= c <= '\u{4DBF}'
    ||| '\u{4E00}' <= c <= '\u{9FFF}'
    ||| '\u{F900}' <= c <= '\u{FAFF}'
    ||| '\u{FF66}' <= c <= '\u{FF9D}'
    ||| '\u{3000}' <= c <= '\u{303F}'
}

fn is_cjk(c: char) -> (answer: bool)
    ensures
        answer == cjk(c),
{
    ('\u{3040}' <= c && c <= '\u{30FF}') || ('\u{3400}' <= c && c <= '\u{4DBF}') || ('\u{4E00}' <= c
        && c <= '\u{9FFF}') || ('\u{F900}' <= c && c <= '\u{FAFF}') || ('\u{FF66}' <= c && c
        <= '\u{FF9D}') || ('\u{3000}' <= c && c <= '\u{303F}')
}

pub open spec fn ascii_digit(c: char) -> bool {
    '0' <= c <= '9'
}

/// A letter of the Latin script, with or without accents.
pub open spec fn latin_letter(c: char) -> bool {
    ||| 'a' <= c <= 'z'
    ||| 'A' <= c <= 'Z'
    ||| c == '\u{AA}' || c == '\u{BA}'
    ||| '\u{C0}' <= c <= '\u{24F}' && c != '×' && c != '÷'
    ||| '\u{250}' <= c <= '\u{2AF}'
    ||| '\u{1E00}' <= c <= '\u{1EFF}'
    ||| '\u{2C60}' <= c <= '\u{2C7F}'
    ||| '\u{A722}' <= c <= '\u{A787}'
    ||| '\u{A78B}' <= c <= '\u{A7CA}'
    ||| '\u{FB00}' <= c <= '\u{FB06}'
    ||| '\u{FF21}' <= c <= '\u{FF3A}'
    ||| '\u{FF41}' <= c <= '\u{FF5A}'
}

fn is_latin_letter(c: char) -> (answer: bool)
    ensures
        answer == latin_letter(c),
{
    ('a' <= c && c <= 'z') || ('A' <= c && c <= 'Z') || c == '\u{AA}' || c == '\u{BA}' || (
    '\u{C0}' <= c && c <= '\u{24F}' && c != '×' && c != '÷') || ('\u{250}' <= c && c <= '\u{2AF}')
        || ('\u{1E00}' <= c && c <= '\u{1EFF}') || ('\u{2C60}' <= c && c <= '\u{2C7F}') || (
    '\u{A722}' <= c && c <= '\u{A787}') || ('\u{A78B}' <= c && c <= '\u{A7CA}') || ('\u{FB00}' <= c
        && c <= '\u{FB06}') || ('\u{FF21}' <= c && c <= '\u{FF3A}') || ('\u{FF41}' <= c && c
        <= '\u{FF5A}')
}

/// An accent that has no letter of its own to be composed with.
pub open spec fn combining_mark(c: char) -> bool {
    '\u{300}' <= c <= '\u{36F}'
}

/// A character that words are made of: Latin letters, digits, CJK and the
/// signs that are written as part of a number.
pub open spec fn word_char(c: char) -> bool {
    ascii_digit(c) || latin_letter(c) || cjk(c) || c == '%' || c == '$' || c == '€' || c == '£'
}

fn is_word_char(c: char) -> (answer: bool)
    ensures
        answer == word_char(c),
{
    ('0' <= c && c <= '9') || is_latin_letter(c) || is_cjk(c) || c == '%' || c == '$' || c == '€'
        || c == '£'
}

/// A character that a word ends in: one that words are made of, or an accent on
/// it.
pub open spec fn word_end(c: char) -> bool {
    word_char(c) || combining_mark(c)
}

fn is_word_end(c: char) -> (answer: bool)
    ensures
        answer == word_end(c),
{
    is_word_char(c) || ('\u{300}' <= c && c <= '\u{36F}')
}

/// Apostrophes, hyphens and slashes, which glue their neighbours.
pub open spec fn connector(c: char) -> bool {
    c == '\'' || c == '’' || c == '-' || c == '‑' || c == '–' || c == '/'
}

fn is_connector(c: char) -> (answer: bool)
    ensures
        answer == connector(c),
{
    matches!(c, '\'' | '’' | '-' | '‑' | '–' | '/')
}

pub open spec fn opening_punct(c: char) -> bool {
    c == '(' || c == '[' || c == '{' || c == '“' || c == '‘' || c == '「' || c == '『' || c == '（'
        || c == '【' || c == '《' || c == '〈' || c == '"' || c == '\''
}

fn is_opening_punct(c: char) -> (answer: bool)
    ensures
        answer == opening_punct(c),
{
    matches!(
        c,
        '(' | '[' | '{' | '“' | '‘' | '「' | '『' | '（' | '【' | '《' | '〈' | '"' | '\''
    )
}

pub open spec fn cjk_punct(c: char) -> bool {
    c == '。' || c == '、' || c == '！' || c == '？' || c == '；' || c == '：' || c == '「' || c == '」'
        || c == '『' || c == '』' || c == '（' || c == '）' || c == '【' || c == '】' || c == '《' || c
        == '》' || c == '〈' || c == '〉' || c == '・'
}

fn is_cjk_punct(c: char) -> (answer: bool)
    ensures
        answer == cjk_punct(c),
{
    matches!(
        c,
        '。' | '、' | '！' | '？' | '；' | '：' | '「' | '」' | '『' | '』' | '（' | '）' | '【' | '】'
            | '《' | '》' | '〈' | '〉' | '・'
    )
}

pub open spec fn closing_punct(c: char) -> bool {
    c == '.' || c == ',' || c == '!' || c == '?' || c == ';' || c == ':' || c == ')' || c == ']' || c
        == '}' || c == '”' || c == '’' || c == '%' || c == '"' || c == '\'' || cjk_punct(c)
}

fn is_closing_punct(c: char) -> (answer: bool)
    ensures
        answer == closing_punct(c),
{
    matches!(
        c,
        '.' | ',' | '!' | '?' | ';' | ':' | ')' | ']' | '}' | '”' | '’' | '%' | '"' | '\''
    ) || is_cjk_punct(c)
}

/// Whether a space belongs between `p`, the last character written, and `n`,
/// the first character of the next word.
pub open spec fn space_between(p: char, n: char) -> bool {
    &&& !closing_punct(n) && !connector(n)
    &&& !opening_punct(p) && !cjk_punct(p) && !connector(p)
    &&& !(cjk(p) && cjk(n))
    &&& {
        ||| word_end(p) && word_char(n)
        ||| word_end(p) && opening_punct(n)
        ||| closing_punct(p) && word_char(n) && !(p == '.' && ascii_digit(n))
    }
}

fn needs_space(prev: Option<char>, next: Option<char>) -> (answer: bool)
    ensures
        answer == (prev matches Some(p) && next matches Some(n) && space_between(p, n)),
{
    let (p, n) = match (prev, next) {
        (Some(p), Some(n)) => (p, n),
        _ => {
            return false;
        },
    };
    if is_closing_punct(n) || is_connector(n) {
        return false;
    }
    if is_opening_punct(p) {
        return false;
    }
    if is_cjk_punct(p) {
        return false;
    }
    if is_connector(p) {
        return false;
    }
    if is_cjk(p) && is_cjk(n) {
        return false;
    }
    if is_word_end(p) && is_word_char(n) {
        return true;
    }
    if is_word_end(p) && is_opening_punct(n) {
        return true;
    }
    is_closing_punct(p) && is_word_char(n) && !(p == '.' && '0' <= n && n <= '9')
}

/// What stands between the text written so far and the next word.
pub open spec fn gap(written: Seq<char>, next: Seq<char>) -> Seq<char> {
    if written.len() > 0 && next.len() > 0 && space_between(written.last(), next[0]) {
        seq![' ']
    } else {
        seq![]
    }
}

/// The tokens one after the other, with a space wherever one belongs.
pub open spec fn tokens_joined(tokens: Seq<Seq<char>>) -> Seq<char>
    decreases tokens.len(),
{
    if tokens.len() == 0 {
        seq![]
    } else {
        let written = tokens_joined(tokens.drop_last());
        written + gap(written, tokens.last()) + tokens.last()
    }
}

/// The canonical compositions of the words, without those that are empty.
pub open spec fn normalized_tokens(words: Seq<Seq<char>>) -> Seq<Seq<char>>
    decreases words.len(),
{
    if words.len() == 0 {
        seq![]
    } else {
        let before = normalized_tokens(words.drop_last());
        let token = nfc(words.last());
        if token.len() == 0 {
            before
        } else {
            before.push(token)
        }
    }
}

/// The display text of a sequence of words.
pub open spec fn words_joined(words: Seq<Seq<char>>) -> Seq<char> {
    tokens_joined(normalized_tokens(words))
}

pub open spec fn views(texts: Seq<String>) -> Seq<Seq<char>> {
    Seq::new(texts.len(), |i: int| texts[i]@)
}

pub open spec fn word_texts(words: Seq<Word>) -> Seq<Seq<char>> {
    Seq::new(words.len(), |i: int| words[i].text@)
}

fn last_char(text: &str) -> (last: Option<char>)
    ensures
        last == (if text@.len() == 0 { None } else { Some(text@.last()) }),
{
    let n: usize = text.unicode_len();
    if n == 0 {
        None
    } else {
        Some(text.get_char(n - 1))
    }
}

/// Append `token` to `out`, after a space where one belongs.
fn push_token(out: &mut String, token: &str)
    ensures
        final(out)@ == old(out)@ + gap(old(out)@, token@) + token@,
{
    let next = if token.is_empty() {
        None
    } else {
        Some(token.get_char(0))
    };
    let spaced = needs_space(last_char(out.as_str()), next);
    if spaced {
        out.push(' ');
        assert(out@ =~= old(out)@ + seq![' ']);
    }
    assert(out@ =~= old(out)@ + gap(old(out)@, token@));
    out.append(token);
}

/// Join tokens that are already normalized.
pub fn join_tokens(tokens: &Vec<String>) -> (joined: String)
    ensures
        joined@ == tokens_joined(views(tokens@)),
{
    let mut out = String::new();
    let mut i: usize = 0;
    assert(views(tokens@).take(0) =~= seq![]);
    while i < tokens.len()
        invariant
            i <= tokens.len(),
            out@ == tokens_joined(views(tokens@).take(i as int)),
        decreases tokens.len() - i,
    {
        push_token(&mut out, tokens[i].as_str());
        i += 1;
        assert(views(tokens@).take(i as int).drop_last() =~= views(tokens@).take(i - 1));
    }
    assert(views(tokens@).take(i as int) =~= views(tokens@));
    out
}

/// Assemble words into display text with CJK- and Latin-aware spacing. Each
/// word is brought to form NFC first, and empty words are left out.
pub fn join_words(words: &[&str]) -> (joined: String)
    ensures
        joined@ == words_joined(Seq::new(words@.len(), |i: int| words@[i]@)),
{
    let ghost texts = Seq::new(words@.len(), |i: int| words@[i]@);
    let mut tokens: Vec<String> = Vec::new();
    let mut i: usize = 0;
    assert(texts.take(0) =~= seq![]);
    assert(views(tokens@) =~= seq![]);
    while i < words.len()
        invariant
            i <= words.len(),
            texts == Seq::new(words@.len(), |i: int| words@[i]@),
            views(tokens@) == normalized_tokens(texts.take(i as int)),
        decreases words.len() - i,
    {
        let ghost before = tokens@;
        let token = to_nfc(words[i]);
        assert(texts.take(i + 1).drop_last() =~= texts.take(i as int));
        if !token.as_str().is_empty() {
            tokens.push(token);
            assert(views(tokens@) =~= views(before).push(token@));
        }
        i += 1;
    }
    assert(texts.take(i as int) =~= texts);
    join_tokens(&tokens)
}

/// Join words by their texts.
pub fn join_word_texts(words: &[Word]) -> (joined: String)
    ensures
        joined@ == words_joined(word_texts(words@)),
{
    let mut texts: Vec<&str> = Vec::new();
    let mut i: usize = 0;
    while i < words.len()
        invariant
            i <= words.len(),
            texts@.len() == i,
            forall|j: int| 0 <= j < i ==> (#[trigger] texts@[j])@ == words@[j].text@,
        decreases words.len() - i,
    {
        texts.push(words[i].text.as_str());
        i += 1;
    }
    assert(Seq::new(texts@.len(), |i: int| texts@[i]@) =~= word_texts(words@));
    join_words(texts.as_slice())
}

/// The tokens one after the other with nothing in between.
pub open spec fn concatenated(tokens: Seq<Seq<char>>) -> Seq<char>
    decreases tokens.len(),
{
    if tokens.len() == 0 {
        seq![]
    } else {
        concatenated(tokens.drop_last()) + tokens.last()
    }
}

/// Tokens that consist of CJK characters only are joined without any space.
pub proof fn law_cjk_tokens_take_no_spaces(tokens: Seq<Seq<char>>)
    requires
        forall|i: int, k: int|
            0 <= i < tokens.len() && 0 <= k < tokens[i].len() ==> cjk(#[trigger] tokens[i][k]),
    ensures
        tokens_joined(tokens) == concatenated(tokens),
        forall|k: int| 0 <= k < concatenated(tokens).len() ==> cjk(#[trigger] concatenated(tokens)[k]),
    decreases tokens.len(),
{
    if tokens.len() > 0 {
        let front = tokens.drop_last();
        assert forall|i: int, k: int|
            0 <= i < front.len() && 0 <= k < front[i].len() implies cjk(#[trigger] front[i][k]) by {
            assert(front[i] == tokens[i]);
            assert(cjk(tokens[i][k]));
        }
        law_cjk_tokens_take_no_spaces(front);
        let written = tokens_joined(front);
        let last = tokens.last();
        assert forall|k: int| 0 <= k < last.len() implies cjk(#[trigger] last[k]) by {
            assert(cjk(tokens[tokens.len() - 1][k]));
        }
        assert(gap(written, last) =~= seq![]);
        assert(tokens_joined(tokens) =~= concatenated(tokens));
        assert forall|k: int| 0 <= k < concatenated(tokens).len() implies cjk(
            #[trigger] concatenated(tokens)[k],
        ) by {
            if k < written.len() {
                assert(concatenated(tokens)[k] == concatenated(front)[k]);
            } else {
                assert(concatenated(tokens)[k] == last[k - written.len()]);
            }
        }
    }
}

/// Closing punctuation follows the text before it directly, and whatever
/// follows an opening bracket stands directly behind it.
pub proof fn law_punctuation_attaches(written: Seq<char>, next: Seq<char>)
    requires
        written.len() > 0,
        next.len() > 0,
        closing_punct(next[0]) || opening_punct(written.last()),
    ensures
        gap(written, next) == Seq::<char>::empty(),
{
}

/// Two Latin or numeric words are separated by exactly one space, whatever
/// accents their letters carry.
pub proof fn law_latin_words_are_spaced(written: Seq<char>, next: Seq<char>)
    requires
        written.len() > 0,
        next.len() > 0,
        ascii_digit(written.last()) || latin_letter(written.last()) || combining_mark(
            written.last(),
        ),
        ascii_digit(next[0]) || latin_letter(next[0]),
    ensures
        gap(written, next) == seq![' '],
{
}

/// A Latin or numeric word comes behind the Latin or numeric word before it
/// after one space, wherever in the text they stand.
pub proof fn law_latin_tokens_take_one_space(tokens: Seq<Seq<char>>, next: Seq<char>)
    requires
        tokens.len() > 0,
        tokens.last().len() > 0,
        next.len() > 0,
        ascii_digit(tokens.last().last()) || latin_letter(tokens.last().last()) || combining_mark(
            tokens.last().last(),
        ),
        ascii_digit(next[0]) || latin_letter(next[0]),
    ensures
        tokens_joined(tokens.push(next)) == tokens_joined(tokens) + seq![' '] + next,
{
    assert(tokens.push(next).drop_last() =~= tokens);
    assert(tokens_joined(tokens).last() == tokens.last().last());
    law_latin_words_are_spaced(tokens_joined(tokens), next);
}

/// There is one space between two words, or nothing.
pub proof fn law_gaps_are_a_space_or_nothing(written: Seq<char>, next: Seq<char>)
    ensures
        gap(written, next) == seq![' '] || gap(written, next) == Seq::<char>::empty(),
        written.len() == 0 || next.len() == 0 ==> gap(written, next) == Seq::<char>::empty(),
{
}

/// Behind a mark that closes a clause or a bracket the next word stands after a
/// space. A digit behind a full stop does not: it is the fraction of a number.
pub proof fn law_closing_marks_are_followed_by_a_space(written: Seq<char>, next: Seq<char>)
    requires
        written.len() > 0,
        next.len() > 0,
        written.last() == '.' || written.last() == ',' || written.last() == '!' || written.last()
            == '?' || written.last() == ';' || written.last() == ':' || written.last() == ')'
            || written.last() == ']' || written.last() == '}' || written.last() == '”'
            || written.last() == '%',
    ensures
        'a' <= next[0] <= 'z' || 'A' <= next[0] <= 'Z' ==> gap(written, next) == seq![' '],
        next[0] == '\u{AA}' || next[0] == '\u{BA}' ==> gap(written, next) == seq![' '],
        '\u{C0}' <= next[0] <= '\u{2AF}' && next[0] != '×' && next[0] != '÷' ==> gap(
            written,
            next,
        ) == seq![' '],
        '\u{1E00}' <= next[0] <= '\u{1EFF}' || '\u{2C60}' <= next[0] <= '\u{2C7F}' ==> gap(
            written,
            next,
        ) == seq![' '],
        '\u{A722}' <= next[0] <= '\u{A787}' || '\u{A78B}' <= next[0] <= '\u{A7CA}' ==> gap(
            written,
            next,
        ) == seq![' '],
        '\u{FB00}' <= next[0] <= '\u{FB06}' ==> gap(written, next) == seq![' '],
        '\u{FF21}' <= next[0] <= '\u{FF3A}' || '\u{FF41}' <= next[0] <= '\u{FF5A}' ==> gap(
            written,
            next,
        ) == seq![' '],
        next[0] == '$' || next[0] == '€' || next[0] == '£' ==> gap(written, next) == seq![' '],
        '\u{3040}' <= next[0] <= '\u{309F}' || '\u{3400}' <= next[0] <= '\u{4DBF}' || '\u{4E00}'
            <= next[0] <= '\u{9FFF}' || '\u{F900}' <= next[0] <= '\u{FAFF}' ==> gap(written, next)
            == seq![' '],
        '0' <= next[0] <= '9' && written.last() != '.' ==> gap(written, next) == seq![' '],
        '0' <= next[0] <= '9' && written.last() == '.' ==> gap(written, next) == Seq::<
            char,
        >::empty(),
{
}

/// A word of letters or digits stands after a space behind a word of letters or
/// digits, whatever accents they carry.
pub proof fn law_letters_and_digits_are_spaced(written: Seq<char>, next: Seq<char>)
    requires
        written.len() > 0,
        next.len() > 0,
        'a' <= written.last() <= 'z' || 'A' <= written.last() <= 'Z' || '0' <= written.last() <= '9'
            || written.last() == '\u{AA}' || written.last() == '\u{BA}' || ('\u{C0}'
            <= written.last() <= '\u{36F}' && written.last() != '×' && written.last() != '÷'
            && !('\u{2B0}' <= written.last() <= '\u{2FF}')) || '\u{1E00}' <= written.last()
            <= '\u{1EFF}' || '\u{2C60}' <= written.last() <= '\u{2C7F}' || '\u{A722}'
            <= written.last() <= '\u{A787}' || '\u{A78B}' <= written.last() <= '\u{A7CA}'
            || '\u{FB00}' <= written.last() <= '\u{FB06}' || '\u{FF21}' <= written.last()
            <= '\u{FF3A}' || '\u{FF41}' <= written.last() <= '\u{FF5A}' || written.last() == '$'
            || written.last() == '€' || written.last() == '£',
    ensures
        'a' <= next[0] <= 'z' || 'A' <= next[0] <= 'Z' || '0' <= next[0] <= '9' ==> gap(
            written,
            next,
        ) == seq![' '],
        next[0] == '\u{AA}' || next[0] == '\u{BA}' ==> gap(written, next) == seq![' '],
        '\u{C0}' <= next[0] <= '\u{2AF}' && next[0] != '×' && next[0] != '÷' ==> gap(
            written,
            next,
        ) == seq![' '],
        '\u{1E00}' <= next[0] <= '\u{1EFF}' || '\u{2C60}' <= next[0] <= '\u{2C7F}' ==> gap(
            written,
            next,
        ) == seq![' '],
        '\u{A722}' <= next[0] <= '\u{A787}' || '\u{A78B}' <= next[0] <= '\u{A7CA}' ==> gap(
            written,
            next,
        ) == seq![' '],
        '\u{FB00}' <= next[0] <= '\u{FB06}' ==> gap(written, next) == seq![' '],
        '\u{FF21}' <= next[0] <= '\u{FF3A}' || '\u{FF41}' <= next[0] <= '\u{FF5A}' ==> gap(
            written,
            next,
        ) == seq![' '],
        next[0] == '$' || next[0] == '€' || next[0] == '£' ==> gap(written, next) == seq![' '],
        '\u{3040}' <= next[0] <= '\u{309F}' || '\u{3400}' <= next[0] <= '\u{4DBF}' || '\u{4E00}'
            <= next[0] <= '\u{9FFF}' || '\u{F900}' <= next[0] <= '\u{FAFF}' || '\u{FF66}' <= next[0]
            <= '\u{FF9D}' ==> gap(written, next) == seq![' '],
        next[0] == '(' || next[0] == '[' || next[0] == '{' || next[0] == '“' || next[0] == '‘'
            ==> gap(written, next) == seq![' '],
{
}

/// Words of Japanese or Chinese characters follow each other directly. Between
/// them and words of letters or digits there is a space.
pub proof fn law_cjk_neighbours(written: Seq<char>, next: Seq<char>)
    requires
        written.len() > 0,
        next.len() > 0,
        '\u{3040}' <= written.last() <= '\u{309F}' || '\u{3400}' <= written.last() <= '\u{4DBF}'
            || '\u{4E00}' <= written.last() <= '\u{9FFF}' || '\u{F900}' <= written.last()
            <= '\u{FAFF}' || '\u{FF66}' <= written.last() <= '\u{FF9D}',
    ensures
        '\u{3000}' <= next[0] <= '\u{30FF}' || '\u{3400}' <= next[0] <= '\u{4DBF}' || '\u{4E00}'
            <= next[0] <= '\u{9FFF}' || '\u{F900}' <= next[0] <= '\u{FAFF}' || '\u{FF66}' <= next[0]
            <= '\u{FF9D}' ==> gap(written, next) == Seq::<char>::empty(),
        'a' <= next[0] <= 'z' || 'A' <= next[0] <= 'Z' || '0' <= next[0] <= '9' ==> gap(
            written,
            next,
        ) == seq![' '],
        next[0] == '(' || next[0] == '[' || next[0] == '“' ==> gap(written, next) == seq![' '],
{
}

/// Nothing stands in front of a mark that closes or connects.
pub proof fn law_no_space_before_closing_marks(written: Seq<char>, next: Seq<char>)
    requires
        next.len() > 0,
        next[0] == '.' || next[0] == ',' || next[0] == '!' || next[0] == '?' || next[0] == ';'
            || next[0] == ':' || next[0] == ')' || next[0] == ']' || next[0] == '}' || next[0] == '”'
            || next[0] == '’' || next[0] == '%' || next[0] == '"' || next[0] == '\'' || next[0] == '-'
            || next[0] == '‑' || next[0] == '–' || next[0] == '/' || next[0] == '。' || next[0] == '、'
            || next[0] == '！' || next[0] == '？' || next[0] == '；' || next[0] == '：' || next[0] == '」'
            || next[0] == '』' || next[0] == '）' || next[0] == '】' || next[0] == '》' || next[0] == '〉'
            || next[0] == '「' || next[0] == '『' || next[0] == '（' || next[0] == '【' || next[0] == '《'
            || next[0] == '〈' || next[0] == '・',
    ensures
        gap(written, next) == Seq::<char>::empty(),
{
}

/// Nothing stands behind a mark that opens or connects, nor behind a Japanese or
/// Chinese mark.
pub proof fn law_no_space_after_opening_marks(written: Seq<char>, next: Seq<char>)
    requires
        written.len() > 0,
        written.last() == '(' || written.last() == '[' || written.last() == '{' || written.last()
            == '“' || written.last() == '‘' || written.last() == '"' || written.last() == '\''
            || written.last() == '’' || written.last() == '-' || written.last() == '‑'
            || written.last() == '–' || written.last() == '/' || written.last() == '「'
            || written.last() == '『' || written.last() == '（' || written.last() == '【'
            || written.last() == '《' || written.last() == '〈' || written.last() == '。'
            || written.last() == '、' || written.last() == '！' || written.last() == '？'
            || written.last() == '；' || written.last() == '：' || written.last() == '」'
            || written.last() == '』' || written.last() == '）' || written.last() == '】'
            || written.last() == '》' || written.last() == '〉' || written.last() == '・',
    ensures
        gap(written, next) == Seq::<char>::empty(),
{
}

/// Joining one word more leaves the text so far as it is. The word follows in
/// form NFC, after a gap; a word of which nothing is left changes nothing.
pub proof fn law_words_are_joined_in_order(words: Seq<Seq<char>>, next: Seq<char>)
    ensures
        words_joined(seq![]) == Seq::<char>::empty(),
        nfc(next).len() == 0 ==> words_joined(words.push(next)) == words_joined(words),
        nfc(next).len() > 0 ==> words_joined(words.push(next)) == words_joined(words) + gap(
            words_joined(words),
            nfc(next),
        ) + nfc(next),
        words_joined(seq![next]) == nfc(next),
{
    assert(words.push(next).drop_last() =~= words);
    let before = normalized_tokens(words);
    assert(before.push(nfc(next)).drop_last() =~= before);
    let none = Seq::<Seq<char>>::empty();
    assert(seq![next].drop_last() =~= none);
    assert(normalized_tokens(none) == none);
    assert(tokens_joined(none) =~= seq![]);
    if nfc(next).len() > 0 {
        let one = none.push(nfc(next));
        assert(normalized_tokens(seq![next]) == one);
        assert(one.drop_last() =~= none);
        assert(tokens_joined(one) =~= nfc(next));
    } else {
        assert(nfc(next) =~= seq![]);
    }
}

/// A letter of the Latin script, a digit or a sign of money.
pub open spec fn latin_word_char(c: char) -> bool {
    ||| 'a' <= c <= 'z' || 'A' <= c <= 'Z' || '0' <= c <= '9'
    ||| c == '$' || c == '€' || c == '£' || c == 'ª' || c == 'º'
    ||| 'À' <= c <= 'ʯ' && c != '×' && c != '÷'
    ||| 'Ḁ' <= c <= 'ỿ'
    ||| '\u{2C60}' <= c <= '\u{2C7F}'
    ||| '\u{A722}' <= c <= '\u{A787}' || '\u{A78B}' <= c <= '\u{A7CA}'
    ||| 'ﬀ' <= c <= 'ﬆ'
    ||| 'Ａ' <= c <= 'Ｚ' || 'ａ' <= c <= 'ｚ'
}

/// A Japanese or Chinese character that is no mark.
pub open spec fn cjk_word_char(c: char) -> bool {
    ||| '\u{3400}' <= c <= '\u{4DBF}'
    ||| '\u{4E00}' <= c <= '\u{9FFF}'
    ||| '\u{F900}' <= c <= '\u{FAFF}'
    ||| 'ｦ' <= c <= 'ﾝ'
    ||| {
        &&& '\u{3000}' <= c <= '\u{30FF}'
        &&& c != '、' && c != '。' && c != '〈' && c != '〉' && c != '《' && c != '》' && c != '「'
        &&& c != '」' && c != '『' && c != '』' && c != '【' && c != '】' && c != '・'
    }
}

/// A mark behind which a word takes a space.
pub open spec fn clause_mark(c: char) -> bool {
    c == '.' || c == ',' || c == '!' || c == '?' || c == ';' || c == ':' || c == ')' || c == ']' || c
        == '}' || c == '”' || c == '%'
}

/// A space stands exactly between two words that are not both Japanese or
/// Chinese, between a word and an opening bracket or quote, and between a mark
/// and a word, but for digits behind a full stop. A percent sign ends a word like
/// a letter. Between all other characters there is nothing.
pub proof fn law_where_spaces_stand(written: Seq<char>, next: Seq<char>)
    requires
        written.len() > 0,
        next.len() > 0,
    ensures
        ({
            let p = written.last();
            let n = next[0];
            let word = latin_word_char(p) || cjk_word_char(p) || '\u{300}' <= p <= '\u{36F}' || p
                == '%';
            let starts = latin_word_char(n) || cjk_word_char(n);
            let opens = n == '(' || n == '[' || n == '{' || n == '“' || n == '‘';
            gap(written, next) == (if (word && starts && !(cjk_word_char(p) && cjk_word_char(n)))
                || (word && opens) || (clause_mark(p) && starts && !(p == '.' && '0' <= n <= '9')) {
                seq![' ']
            } else {
                Seq::<char>::empty()
            })
        }),
{
}

} // verus!
