//! Tolerant extraction of a JSON document from a model's reply, which may
//! wrap it in prose or in a fenced block.
use vstd::prelude::*;

use crate::contracts::{ErrorCode, VcError, VcErrorView, VcResult};
use crate::json::{is_json, json_document};
use crate::text::{
    chars_of, find_in, position_of, string_of, text_views, trimmed, trimmed_bounds,
};

verus! {

/// Where the content of the first fenced block of `text` begins and ends.
pub open spec fn fence(text: Seq<char>) -> Option<(int, int)> {
    let start = match position_of(text, "```json"@, 0) {
        Some(i) => Some(i + "```json"@.len()),
        None => match position_of(text, "```"@, 0) {
            Some(i) => Some(i + "```"@.len()),
            None => None,
        },
    };
    match start {
        Some(start) => match position_of(text, "```"@, start) {
            Some(end) => Some((start, end)),
            None => None,
        },
        None => None,
    }
}

fn find_fence(text: &Vec<char>) -> (bounds: Option<(usize, usize)>)
    ensures
        match bounds {
            Some((start, end)) => start <= end <= text.len() && fence(text@) == Some(
                (start as int, end as int),
            ),
            None => fence(text@) is None,
        },
{
    let json_marker = chars_of("```json");
    let marker = chars_of("```");
    let start: usize = match find_in(text, &json_marker, 0) {
        Some(i) => i + json_marker.len(),
        None => match find_in(text, &marker, 0) {
            Some(i) => i + marker.len(),
            None => {
                return None;
            },
        },
    };
    match find_in(text, &marker, start) {
        Some(end) => Some((start, end)),
        None => None,
    }
}

/// How far a search for a bracketed run has come.
pub struct Scan {
    /// Brackets that are open.
    pub depth: int,
    /// Where the outermost of them stands, and which one it is.
    pub start: int,
    pub opener: char,
    /// Inside a string literal, and behind a backslash in it.
    pub in_string: bool,
    pub escape: bool,
}

impl Scan {
    pub open spec fn begin() -> Scan {
        Scan { depth: 0, start: 0, opener: '\0', in_string: false, escape: false }
    }

    /// `c` closes the outermost bracket with its counterpart.
    pub open spec fn closes(self, c: char) -> bool {
        &&& !self.in_string
        &&& self.depth == 1
        &&& (self.opener == '{' && c == '}') || (self.opener == '[' && c == ']')
    }

    /// The scan behind the character `c` at position `i`.
    pub open spec fn step(self, i: int, c: char) -> Scan {
        if self.in_string {
            if self.escape {
                Scan { escape: false, ..self }
            } else if c == '\\' {
                Scan { escape: true, ..self }
            } else if c == '"' {
                Scan { in_string: false, ..self }
            } else {
                self
            }
        } else if c == '"' {
            Scan { in_string: true, ..self }
        } else if c == '{' || c == '[' {
            if self.depth == 0 {
                Scan { start: i, opener: c, depth: 1, ..self }
            } else {
                Scan { depth: self.depth + 1, ..self }
            }
        } else if (c == '}' || c == ']') && self.depth > 0 {
            Scan { depth: self.depth - 1, ..self }
        } else {
            self
        }
    }
}

/// The first run of `text` from an opening bracket to the counterpart that
/// closes it, brackets in string literals not counted.
pub open spec fn bracketed_from(text: Seq<char>, i: int, scan: Scan) -> Option<(int, int)>
    decreases text.len() - i,
{
    if i < 0 || i >= text.len() {
        None
    } else if scan.closes(text[i]) {
        Some((scan.start, i + 1))
    } else {
        bracketed_from(text, i + 1, scan.step(i, text[i]))
    }
}

pub open spec fn bracketed(text: Seq<char>) -> Option<(int, int)> {
    bracketed_from(text, 0, Scan::begin())
}

fn find_balanced_json(text: &Vec<char>) -> (bounds: Option<(usize, usize)>)
    ensures
        match bounds {
            Some((start, end)) => start <= end <= text.len() && bracketed(text@) == Some(
                (start as int, end as int),
            ),
            None => bracketed(text@) is None,
        },
{
    let mut start: usize = 0;
    let mut depth: usize = 0;
    let mut opener = '\0';
    let mut in_string = false;
    let mut escape = false;
    let mut i: usize = 0;
    while i < text.len()
        invariant
            i <= text.len(),
            start <= i,
            depth <= i,
            bracketed(text@) == bracketed_from(
                text@,
                i as int,
                (Scan {
                    depth: depth as int,
                    start: start as int,
                    opener,
                    in_string,
                    escape,
                }),
            ),
        decreases text.len() - i,
    {
        let c = text[i];
        if in_string {
            if escape {
                escape = false;
            } else if c == '\\' {
                escape = true;
            } else if c == '"' {
                in_string = false;
            }
        } else if c == '"' {
            in_string = true;
        } else if c == '{' || c == '[' {
            if depth == 0 {
                start = i;
                opener = c;
            }
            depth += 1;
        } else if c == '}' || c == ']' {
            if depth > 0 {
                if depth == 1 && ((opener == '{' && c == '}') || (opener == '[' && c == ']')) {
                    return Some((start, i + 1));
                }
                depth -= 1;
            }
        }
        i += 1;
    }
    None
}

/// The parts of a reply that may be the JSON document, in the order in which
/// they are tried: the whole, a fenced block, a bracketed run.
pub open spec fn candidates(text: Seq<char>) -> Seq<Seq<char>> {
    let whole = trimmed(text);
    let fenced = match fence(whole) {
        Some((start, end)) => seq![trimmed(whole.subrange(start, end))],
        None => seq![],
    };
    let run = match bracketed(whole) {
        Some((start, end)) => seq![whole.subrange(start, end)],
        None => seq![],
    };
    seq![whole] + fenced + run
}

/// The first candidate from `i` on that is a JSON document.
pub open spec fn first_document(texts: Seq<Seq<char>>, i: int) -> Option<Seq<char>>
    decreases texts.len() - i,
{
    if i < 0 || i >= texts.len() {
        None
    } else if json_document(texts[i]) {
        Some(texts[i])
    } else {
        first_document(texts, i + 1)
    }
}

/// At most the first two hundred characters.
pub open spec fn excerpt(text: Seq<char>) -> Seq<char> {
    if text.len() <= 200 {
        text
    } else {
        text.take(200)
    }
}

/// The JSON document in a reply, or the error of a reply without one.
pub open spec fn extracted(text: Seq<char>) -> Result<Seq<char>, VcErrorView> {
    if trimmed(text).len() == 0 {
        Err(VcErrorView::plain(ErrorCode::LlmInvalidResponse, "empty model response"@))
    } else {
        match first_document(candidates(text), 0) {
            Some(document) => Ok(document),
            None => Err(
                VcErrorView {
                    detail: Some(excerpt(trimmed(text))),
                    ..VcErrorView::plain(
                        ErrorCode::LlmInvalidResponse,
                        "could not parse JSON from model response"@,
                    )
                },
            ),
        }
    }
}

/// The parts of a reply that may be the JSON document.
pub fn json_candidates(text: &str) -> (parts: Vec<String>)
    ensures
        text_views(parts@) == candidates(text@),
{
    let all = chars_of(text);
    let (start, end) = trimmed_bounds(&all);
    let whole_text = string_of(&all, start, end);
    let whole = chars_of(whole_text.as_str());
    let mut parts: Vec<String> = Vec::new();
    parts.push(whole_text);
    if let Some((from, to)) = find_fence(&whole) {
        let inner = string_of(&whole, from, to);
        let inner_chars = chars_of(inner.as_str());
        let (a, b) = trimmed_bounds(&inner_chars);
        parts.push(string_of(&inner_chars, a, b));
    }
    if let Some((from, to)) = find_balanced_json(&whole) {
        parts.push(string_of(&whole, from, to));
    }
    assert(text_views(parts@) =~= candidates(text@));
    parts
}

/// Extract the JSON document from a reply that may hold fences or prose.
pub fn extract_json_value(text: &str) -> (result: VcResult<String>)
    ensures
        match result {
            Ok(document) => extracted(text@) == Ok::<Seq<char>, VcErrorView>(document@),
            Err(error) => extracted(text@) == Err::<Seq<char>, VcErrorView>(error@),
        },
{
    let parts = json_candidates(text);
    let ghost texts = candidates(text@);
    assert(texts[0] == trimmed(text@));
    assert(parts@[0]@ == text_views(parts@)[0]);
    if parts[0].as_str().is_empty() {
        return Err(VcError::new(ErrorCode::LlmInvalidResponse, "empty model response"));
    }
    let mut i: usize = 0;
    while i < parts.len()
        invariant
            i <= parts.len(),
            texts == candidates(text@),
            text_views(parts@) == texts,
            trimmed(text@).len() > 0,
            first_document(texts, 0) == first_document(texts, i as int),
        decreases parts.len() - i,
    {
        assert(parts@[i as int]@ == texts[i as int]);
        if is_json(parts[i].as_str()) {
            return Ok(parts[i].clone());
        }
        i += 1;
    }
    let whole = chars_of(parts[0].as_str());
    let shown: usize = if whole.len() <= 200 {
        whole.len()
    } else {
        200
    };
    let detail = string_of(&whole, 0, shown);
    assert(detail@ =~= excerpt(trimmed(text@)));
    Err(
        VcError::new(
            ErrorCode::LlmInvalidResponse,
            "could not parse JSON from model response",
        ).with_detail(detail.as_str()),
    )
}

proof fn lemma_first_document(texts: Seq<Seq<char>>, i: int)
    requires
        0 <= i,
    ensures
        match first_document(texts, i) {
            Some(document) => json_document(document) && exists|k: int|
                i <= k < texts.len() && #[trigger] texts[k] == document,
            None => forall|k: int| i <= k < texts.len() ==> !json_document(#[trigger] texts[k]),
        },
    decreases texts.len() - i,
{
    if i < texts.len() {
        lemma_first_document(texts, i + 1);
        if json_document(texts[i]) {
            assert(texts[i] == first_document(texts, i)->0);
        }
    }
}

/// What is extracted is a JSON document and one of the candidates.
pub proof fn law_extracted_is_json(text: Seq<char>)
    ensures
        extracted(text) matches Ok(document) ==> json_document(document) && candidates(
            text,
        ).contains(document),
{
    lemma_first_document(candidates(text), 0);
}

/// A reply that is JSON by itself is taken as it is, apart from the white
/// space around it.
pub proof fn law_plain_json_is_taken_whole(text: Seq<char>)
    requires
        trimmed(text).len() > 0,
        json_document(trimmed(text)),
    ensures
        extracted(text) == Ok::<Seq<char>, VcErrorView>(trimmed(text)),
{
    assert(candidates(text)[0] == trimmed(text));
}

/// A reply with a JSON document among the candidates is never refused.
pub proof fn law_no_document_is_missed(text: Seq<char>, k: int)
    requires
        trimmed(text).len() > 0,
        0 <= k < candidates(text).len(),
        json_document(candidates(text)[k]),
    ensures
        extracted(text) is Ok,
{
    lemma_first_document(candidates(text), 0);
}

/// No bracket and no quote stands in the text.
pub open spec fn plain_text(text: Seq<char>) -> bool {
    forall|i: int|
        0 <= i < text.len() ==> #[trigger] text[i] != '{' && text[i] != '}' && text[i] != '['
            && text[i] != ']' && text[i] != '"'
}

proof fn lemma_plain_run(text: Seq<char>, i: int, end: int, scan: Scan)
    requires
        0 <= i <= end <= text.len(),
        !scan.in_string,
        forall|k: int|
            i <= k < end ==> #[trigger] text[k] != '{' && text[k] != '}' && text[k] != '['
                && text[k] != ']' && text[k] != '"',
    ensures
        bracketed_from(text, i, scan) == bracketed_from(text, end, scan),
    decreases end - i,
{
    if i < end {
        assert(text[i] != '{');
        lemma_plain_run(text, i + 1, end, scan);
    }
}

proof fn lemma_string_run(text: Seq<char>, i: int, end: int, scan: Scan)
    requires
        0 <= i <= end <= text.len(),
        scan.in_string,
        !scan.escape,
        forall|k: int| i <= k < end ==> #[trigger] text[k] != '"' && text[k] != '\\',
    ensures
        bracketed_from(text, i, scan) == bracketed_from(text, end, scan),
    decreases end - i,
{
    if i < end {
        assert(text[i] != '"');
        lemma_string_run(text, i + 1, end, scan);
    }
}

/// The first object in a text is found from its brace to the brace that closes
/// it. Brackets inside a string do not count, and other text around it does not
/// matter.
pub proof fn law_objects_are_found(
    before: Seq<char>,
    head: Seq<char>,
    string: Seq<char>,
    tail: Seq<char>,
    behind: Seq<char>,
)
    requires
        plain_text(before),
        plain_text(head),
        plain_text(tail),
        forall|i: int|
            0 <= i < string.len() ==> #[trigger] string[i] != '"' && string[i] != '\\',
    ensures
        ({
            let found = seq!['{'] + head + seq!['"'] + string + seq!['"'] + tail + seq!['}'];
            bracketed(before + found + behind) == Some(
                (before.len() as int, (before.len() + found.len()) as int),
            )
        }),
{
    let found = seq!['{'] + head + seq!['"'] + string + seq!['"'] + tail + seq!['}'];
    let text = before + found + behind;
    let a = before.len() as int;
    let b = a + 1 + head.len();
    let c = b + 1 + string.len();
    let d = c + 1 + tail.len();
    let begin = Scan::begin();
    assert forall|k: int| 0 <= k < a implies #[trigger] text[k] != '{' && text[k] != '}' && text[k]
        != '[' && text[k] != ']' && text[k] != '"' by {
        assert(text[k] == before[k]);
    }
    lemma_plain_run(text, 0, a, begin);
    assert(text[a] == '{');
    let open = begin.step(a, '{');
    assert(bracketed_from(text, a, begin) == bracketed_from(text, a + 1, open));
    assert forall|k: int| a + 1 <= k < b implies #[trigger] text[k] != '{' && text[k] != '}'
        && text[k] != '[' && text[k] != ']' && text[k] != '"' by {
        assert(text[k] == head[k - a - 1]);
    }
    lemma_plain_run(text, a + 1, b, open);
    assert(text[b] == '"');
    let quoted = open.step(b, '"');
    assert(bracketed_from(text, b, open) == bracketed_from(text, b + 1, quoted));
    assert forall|k: int| b + 1 <= k < c implies #[trigger] text[k] != '"' && text[k] != '\\' by {
        assert(text[k] == string[k - b - 1]);
    }
    lemma_string_run(text, b + 1, c, quoted);
    assert(text[c] == '"');
    let closed = quoted.step(c, '"');
    assert(closed == open);
    assert(bracketed_from(text, c, quoted) == bracketed_from(text, c + 1, closed));
    assert forall|k: int| c + 1 <= k < d implies #[trigger] text[k] != '{' && text[k] != '}'
        && text[k] != '[' && text[k] != ']' && text[k] != '"' by {
        assert(text[k] == tail[k - c - 1]);
    }
    lemma_plain_run(text, c + 1, d, closed);
    assert(text[d] == '}');
    assert(bracketed_from(text, d, closed) == Some((a, d + 1)));
}

/// What is tried are the whole reply, then what stands in its fence, then its
/// first object or list. The first of these that is JSON is taken.
pub proof fn law_candidates_in_their_order(text: Seq<char>)
    ensures
        candidates(text)[0] == trimmed(text),
        fence(trimmed(text)) matches Some((start, end)) ==> candidates(text)[1] == trimmed(
            trimmed(text).subrange(start, end),
        ),
        bracketed(trimmed(text)) matches Some((start, end)) ==> candidates(text).last()
            == trimmed(text).subrange(start, end),
        candidates(text).len() == 1 + (if fence(trimmed(text)) is Some {
            1int
        } else {
            0
        }) + (if bracketed(trimmed(text)) is Some {
            1int
        } else {
            0
        }),
        trimmed(text).len() == 0 ==> (extracted(text) matches Err(error) && error.code
            == ErrorCode::LlmInvalidResponse),
        forall|k: int|
            0 <= k < candidates(text).len() && trimmed(text).len() > 0 && json_document(
                #[trigger] candidates(text)[k],
            ) && (forall|i: int| 0 <= i < k ==> !json_document(#[trigger] candidates(text)[i]))
                ==> extracted(text) == Ok::<Seq<char>, VcErrorView>(candidates(text)[k]),
{
    let all = candidates(text);
    assert forall|k: int|
        0 <= k < all.len() && trimmed(text).len() > 0 && json_document(#[trigger] all[k]) && (forall|
            i: int,
        |
            0 <= i < k ==> !json_document(#[trigger] all[i])) implies extracted(text) == Ok::<
        Seq<char>,
        VcErrorView,
    >(all[k]) by {
        lemma_document_at(all, 0, k);
    }
}

proof fn lemma_document_at(texts: Seq<Seq<char>>, from: int, k: int)
    requires
        0 <= from <= k < texts.len(),
        json_document(texts[k]),
        forall|i: int| 0 <= i < k ==> !json_document(#[trigger] texts[i]),
    ensures
        first_document(texts, from) == Some(texts[k]),
    decreases k - from,
{
    if from < k {
        assert(!json_document(texts[from]));
        lemma_document_at(texts, from + 1, k);
    }
}

/// A fence begins behind its mark, with or without the word json, and ends before
/// the next mark.
pub proof fn law_fences_are_found(text: Seq<char>)
    ensures
        position_of(text, "```json"@, 0) matches Some(p) ==> (position_of(
            text,
            "```"@,
            p + 7,
        ) matches Some(q) ==> fence(text) == Some((p + 7, q))),
        position_of(text, "```json"@, 0) is None ==> (position_of(text, "```"@, 0) matches Some(p)
            ==> (position_of(text, "```"@, p + 3) matches Some(q) ==> fence(text) == Some(
            (p + 3, q),
        ))),
        position_of(text, "```"@, 0) is None && position_of(text, "```json"@, 0) is None ==> fence(
            text,
        ) is None,
{
    reveal_strlit("```json");
    reveal_strlit("```");
}

/// Inside a string nothing opens or closes. A quote ends it unless a backslash
/// stands before it; a backslash takes the meaning of one character.
pub proof fn law_strings_are_passed_over(scan: Scan, i: int, c: char)
    requires
        scan.in_string,
    ensures
        !scan.closes(c),
        scan.step(i, c).depth == scan.depth && scan.step(i, c).start == scan.start && scan.step(
            i,
            c,
        ).opener == scan.opener,
        scan.escape ==> scan.step(i, c).in_string && !scan.step(i, c).escape,
        !scan.escape && c == '\\' ==> scan.step(i, c).in_string && scan.step(i, c).escape,
        !scan.escape && c == '"' ==> !scan.step(i, c).in_string,
        !scan.escape && c != '\\' && c != '"' ==> scan.step(i, c) == scan,
{
}

/// Outside of strings brackets open and close, and what was opened first is
/// closed by its own bracket.
pub proof fn law_brackets_are_counted(scan: Scan, i: int, c: char)
    requires
        !scan.in_string,
    ensures
        scan.depth == 1 && scan.opener == '{' ==> (scan.closes(c) <==> c == '}'),
        scan.depth == 1 && scan.opener == '[' ==> (scan.closes(c) <==> c == ']'),
        scan.depth != 1 ==> !scan.closes(c),
        c == '{' || c == '[' ==> scan.step(i, c).depth == (if scan.depth == 0 {
            1
        } else {
            scan.depth + 1
        }),
        (c == '{' || c == '[') && scan.depth == 0 ==> scan.step(i, c).start == i && scan.step(
            i,
            c,
        ).opener == c,
        (c == '{' || c == '[') && scan.depth != 0 ==> scan.step(i, c).start == scan.start
            && scan.step(i, c).opener == scan.opener,
        (c == '}' || c == ']') && scan.depth > 0 ==> scan.step(i, c).depth == scan.depth - 1,
        (c == '}' || c == ']') && scan.depth <= 0 ==> scan.step(i, c) == scan,
        c == '"' ==> scan.step(i, c).in_string,
{
}

/// A reply that holds no document is quoted in the error, up to two hundred
/// characters.
pub proof fn law_refused_replies_are_quoted(text: Seq<char>)
    requires
        trimmed(text).len() > 0,
        forall|k: int| 0 <= k < candidates(text).len() ==> !json_document(#[trigger] candidates(text)[k]),
    ensures
        extracted(text) matches Err(error) && error.code == ErrorCode::LlmInvalidResponse
            && error.detail == Some(
            if trimmed(text).len() <= 200 {
                trimmed(text)
            } else {
                trimmed(text).take(200)
            },
        ),
{
    lemma_first_document(candidates(text), 0);
}

} // verus!
