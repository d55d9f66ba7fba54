//! Mapping of a formatted text back to runs of words.
use vstd::prelude::*;
use vstd::slice::*;
use vstd::string::*;

use crate::subtitle::text_joiner::{
    join_word_texts, law_words_are_joined_in_order, nfc, word_texts, words_joined,
};
use crate::subtitle::transcript::{Cue, RangeUsize, Transcript, Word};
use crate::text::{
    chars_of, decimal, find_in, is_whitespace, position_of, push_decimal, same_text, string_of,
    whitespace,
};

verus! {

/// The text without break markers.
pub open spec fn unbroken(text: Seq<char>) -> Seq<char>
    decreases text.len(),
{
    match position_of(text, "<br>"@, 0) {
        Some(p) => if 0 <= p && p + 4 <= text.len() {
            text.take(p) + unbroken(text.skip(p + 4))
        } else {
            text
        },
        None => text,
    }
}

/// Where the markers stood: positions in the text without markers, counted
/// from `done` on.
pub open spec fn break_offsets(text: Seq<char>, done: int) -> Seq<int>
    decreases text.len(),
{
    match position_of(text, "<br>"@, 0) {
        Some(p) => if 0 <= p && p + 4 <= text.len() {
            seq![done + p] + break_offsets(text.skip(p + 4), done + p)
        } else {
            seq![]
        },
        None => seq![],
    }
}

/// Positions as integers.
pub open spec fn offsets(positions: Seq<usize>) -> Seq<int> {
    Seq::new(positions.len(), |i: int| positions[i] as int)
}

proof fn lemma_position_shift(text: Seq<char>, needle: Seq<char>, from: int, k: int)
    requires
        0 <= from <= text.len(),
        0 <= k,
    ensures
        position_of(text, needle, from + k) == (match position_of(text.skip(from), needle, k) {
            Some(p) => Some(from + p),
            None => None,
        }),
        position_of(text.skip(from), needle, k) matches Some(p) ==> k <= p && p + needle.len()
            <= text.len() - from,
    decreases text.len() - from - k,
{
    let rest = text.skip(from);
    if from + k + needle.len() <= text.len() {
        assert(text.subrange(from + k, from + k + needle.len()) =~= rest.subrange(
            k,
            k + needle.len(),
        ));
        if !stands(rest, needle, k) && k < rest.len() {
            lemma_position_shift(text, needle, from, k + 1);
        }
    }
}

spec fn stands(text: Seq<char>, needle: Seq<char>, i: int) -> bool {
    crate::text::stands_at(text, needle, i)
}

/// Take the markers out of a formatted text. Gives the text and the positions
/// at which the markers stood in it.
pub fn remove_break_markers(text: &str) -> (parts: (String, Vec<usize>))
    ensures
        parts.0@ == unbroken(text@),
        offsets(parts.1@) == break_offsets(text@, 0),
        forall|i: int| 0 <= i < parts.1@.len() ==> #[trigger] parts.1@[i] <= parts.0@.len(),
{
    let chars = chars_of(text);
    let marker = chars_of("<br>");
    proof {
        reveal_strlit("<br>");
        assert(marker@.len() == 4);
        assert(chars@.skip(0) =~= chars@);
        assert(Seq::<char>::empty() + unbroken(chars@) =~= unbroken(chars@));
        assert(offsets(Seq::<usize>::empty()) + break_offsets(chars@, 0) =~= break_offsets(
            chars@,
            0,
        ));
    }
    let mut clean: Vec<char> = Vec::new();
    let mut breaks: Vec<usize> = Vec::new();
    let mut from: usize = 0;
    loop
        invariant
            from <= chars.len(),
            chars@ == text@,
            marker@ == "<br>"@,
            marker@.len() == 4,
            clean@.len() <= from,
            clean@ + unbroken(chars@.skip(from as int)) == unbroken(text@),
            offsets(breaks@) + break_offsets(chars@.skip(from as int), clean@.len() as int)
                == break_offsets(text@, 0),
            forall|i: int| 0 <= i < breaks@.len() ==> #[trigger] breaks@[i] <= clean@.len(),
        ensures
            from <= chars.len(),
            clean@ + chars@.skip(from as int) == unbroken(text@),
            offsets(breaks@) == break_offsets(text@, 0),
            forall|i: int| 0 <= i < breaks@.len() ==> #[trigger] breaks@[i] <= clean@.len(),
        decreases chars.len() - from,
    {
        proof {
            lemma_position_shift(chars@, marker@, from as int, 0);
        }
        let ghost rest = chars@.skip(from as int);
        match find_in(&chars, &marker, from) {
            Some(p) => {
                let ghost before = clean@;
                let ghost marks = breaks@;
                let mut i: usize = from;
                while i < p
                    invariant
                        from <= i <= p <= chars.len(),
                        before.len() <= from,
                        clean@ == before + chars@.subrange(from as int, i as int),
                    decreases p - i,
                {
                    clean.push(chars[i]);
                    i += 1;
                    assert(clean@ =~= before + chars@.subrange(from as int, i as int));
                }
                breaks.push(clean.len());
                proof {
                    let q = p - from;
                    assert(rest.take(q) =~= chars@.subrange(from as int, p as int));
                    assert(rest.skip(q + 4) =~= chars@.skip(p + 4));
                    assert(before + (rest.take(q) + unbroken(chars@.skip(p + 4))) =~= clean@
                        + unbroken(chars@.skip(p + 4)));
                    assert(offsets(breaks@) =~= offsets(marks).push(before.len() + q));
                    assert(offsets(marks) + (seq![before.len() + q] + break_offsets(
                        chars@.skip(p + 4),
                        before.len() + q,
                    )) =~= offsets(breaks@) + break_offsets(
                        chars@.skip(p + 4),
                        clean@.len() as int,
                    ));
                }
                from = p + 4;
            },
            None => {
                assert(offsets(breaks@) + Seq::<int>::empty() =~= offsets(breaks@));
                break;
            },
        }
    }
    let mut i: usize = from;
    let ghost before = clean@;
    while i < chars.len()
        invariant
            from <= i <= chars.len(),
            clean@ == before + chars@.subrange(from as int, i as int),
        decreases chars.len() - i,
    {
        clean.push(chars[i]);
        i += 1;
        assert(clean@ =~= before + chars@.subrange(from as int, i as int));
    }
    assert(chars@.subrange(from as int, chars@.len() as int) =~= chars@.skip(from as int));
    let out = string_of(&clean, 0, clean.len());
    assert(out@ =~= clean@);
    (out, breaks)
}

/// The first `n` characters, with a space at every break that has none in
/// front of it.
pub open spec fn spaced(clean: Seq<char>, breaks: Seq<int>, n: int) -> Seq<char>
    decreases n,
{
    if n <= 0 {
        seq![]
    } else {
        let i = n - 1;
        let before = spaced(clean, breaks, i);
        if breaks.contains(i) && !(i > 0 && clean[i - 1] == ' ') {
            before.push(' ').push(clean[i])
        } else {
            before.push(clean[i])
        }
    }
}

fn holds_position(positions: &Vec<usize>, position: usize) -> (answer: bool)
    ensures
        answer == offsets(positions@).contains(position as int),
{
    let mut i: usize = 0;
    while i < positions.len()
        invariant
            i <= positions.len(),
            forall|k: int| 0 <= k < i ==> #[trigger] positions@[k] != position,
        decreases positions.len() - i,
    {
        if positions[i] == position {
            assert(offsets(positions@)[i as int] == position);
            return true;
        }
        i += 1;
    }
    false
}

/// Put a space back at every break.
pub fn restore_split_spaces(clean: &str, breaks: &Vec<usize>) -> (text: String)
    ensures
        text@ == spaced(clean@, offsets(breaks@), clean@.len() as int),
{
    let chars = chars_of(clean);
    let mut out = String::new();
    let mut i: usize = 0;
    while i < chars.len()
        invariant
            i <= chars.len(),
            chars@ == clean@,
            out@ == spaced(clean@, offsets(breaks@), i as int),
        decreases chars.len() - i,
    {
        if holds_position(breaks, i) && !(i > 0 && chars[i - 1] == ' ') {
            out.push(' ');
        }
        out.push(chars[i]);
        i += 1;
    }
    out
}

/// How many characters the first `end` words have when they are joined.
pub open spec fn boundary(words: Seq<Word>, end: int) -> int {
    words_joined(word_texts(words.take(end))).len() as int
}

/// A text position is the end of one of the words, the last one aside.
pub open spec fn is_boundary(words: Seq<Word>, position: int) -> bool {
    exists|end: int| 1 <= end < words.len() && #[trigger] boundary(words, end) == position
}

/// The text position that a break stands for: its own, or that before the
/// white space in front of it.
pub open spec fn break_position(
    position: int,
    clean: Seq<char>,
    boundaries: spec_fn(int) -> bool,
) -> Option<int> {
    if boundaries(position) {
        Some(position)
    } else if 0 < position <= clean.len() && whitespace(clean[position - 1]) && boundaries(
        position - 1,
    ) {
        Some(position - 1)
    } else {
        None
    }
}

/// The text position that a break stands for, where the boundaries are given.
pub fn normalized_break_position(
    position: usize,
    clean: &Vec<char>,
    boundaries: &Vec<usize>,
) -> (normalized: Option<usize>)
    ensures
        match normalized {
            Some(p) => break_position(
                position as int,
                clean@,
                |q: int| offsets(boundaries@).contains(q),
            ) == Some(p as int),
            None => break_position(
                position as int,
                clean@,
                |q: int| offsets(boundaries@).contains(q),
            ) is None,
        },
{
    if holds_position(boundaries, position) {
        return Some(position);
    }
    if position > 0 && position <= clean.len() && is_whitespace(clean[position - 1]) {
        if holds_position(boundaries, position - 1) {
            return Some(position - 1);
        }
    }
    None
}

/// The first number of words, from `end` on, whose joined text ends at the
/// position.
pub open spec fn words_before(words: Seq<Word>, position: int, end: int) -> Option<int>
    decreases words.len() - end,
{
    if end < 1 || end >= words.len() {
        None
    } else if boundary(words, end) == position {
        Some(end)
    } else {
        words_before(words, position, end + 1)
    }
}

/// The joined length of every proper beginning of the words.
fn boundaries_of(words: &[Word]) -> (lengths: Vec<usize>)
    ensures
        words@.len() == 0 ==> lengths@.len() == 0,
        words@.len() > 0 ==> lengths@.len() == words@.len() - 1,
        forall|k: int| 0 <= k < lengths@.len() ==> #[trigger] lengths@[k] == boundary(words@, k + 1),
{
    let mut lengths: Vec<usize> = Vec::new();
    let mut end: usize = 1;
    while end < words.len()
        invariant
            1 <= end,
            words@.len() > 0 ==> end <= words@.len(),
            words@.len() == 0 ==> end == 1,
            lengths@.len() == end - 1,
            forall|k: int|
                0 <= k < lengths@.len() ==> #[trigger] lengths@[k] == boundary(words@, k + 1),
        decreases words@.len() - end,
    {
        let front = slice_subrange(words, 0, end);
        assert(front@ =~= words@.take(end as int));
        let text = join_word_texts(front);
        lengths.push(text.as_str().unicode_len());
        end += 1;
    }
    lengths
}

/// The number of words whose joined text has `chars` characters.
pub fn boundary_index(words: &[Word], chars: usize) -> (result: Result<usize, String>)
    ensures
        match result {
            Ok(end) => words_before(words@, chars as int, 1) == Some(end as int),
            Err(text) => words_before(words@, chars as int, 1) is None && text@
                == "break offset is not a word boundary"@,
        },
{
    let lengths = boundaries_of(words);
    let mut end: usize = 1;
    while end < words.len()
        invariant
            1 <= end,
            words@.len() > 0 ==> lengths@.len() == words@.len() - 1,
            forall|k: int|
                0 <= k < lengths@.len() ==> #[trigger] lengths@[k] == boundary(words@, k + 1),
            words_before(words@, chars as int, 1) == words_before(
                words@,
                chars as int,
                end as int,
            ),
        decreases words@.len() - end,
    {
        if lengths[end - 1] == chars {
            return Ok(end);
        }
        end += 1;
    }
    Err("break offset is not a word boundary".to_owned())
}

/// The words before every break, in order; `None` where a break does not stand
/// at a word.
pub open spec fn cut_points(words: Seq<Word>, clean: Seq<char>, breaks: Seq<int>) -> Option<Seq<int>>
    decreases breaks.len(),
{
    if breaks.len() == 0 {
        Some(seq![])
    } else {
        match (
            cut_points(words, clean, breaks.drop_last()),
            break_position(breaks.last(), clean, |q: int| is_boundary(words, q)),
        ) {
            (Some(cuts), Some(p)) => match words_before(words, p, 1) {
                Some(end) => Some(cuts.push(end)),
                None => None,
            },
            _ => None,
        }
    }
}

/// The runs of words between the cut points.
pub open spec fn runs(range: RangeUsize, cuts: Seq<int>) -> Seq<RangeUsize> {
    Seq::new(
        cuts.len() + 1,
        |i: int|
            RangeUsize {
                start: if i == 0 {
                    range.start
                } else {
                    (range.start + cuts[i - 1]) as usize
                },
                end: if i == cuts.len() {
                    range.end
                } else {
                    (range.start + cuts[i]) as usize
                },
            },
    )
}

/// The formatted text differs from the text of the words in more than breaks.
pub open spec fn changed(original: Seq<char>, formatted: Seq<char>) -> bool {
    let clean = unbroken(formatted);
    clean != original && spaced(clean, break_offsets(formatted, 0), clean.len() as int) != original
}

pub fn is_changed(original: &str, formatted: &str) -> (answer: bool)
    ensures
        answer == changed(original@, formatted@),
{
    let (clean, breaks) = remove_break_markers(formatted);
    if same_text(clean.as_str(), original) {
        return false;
    }
    let restored = restore_split_spaces(clean.as_str(), &breaks);
    !same_text(restored.as_str(), original)
}

/// A sentence on a cue.
pub open spec fn about_cue(id: u32, what: Seq<char>) -> Seq<char> {
    "cue "@ + decimal(id as nat) + what
}

pub(crate) fn cue_sentence(id: u32, what: &str) -> (text: String)
    ensures
        text@ == about_cue(id, what@),
{
    let mut text = "cue ".to_owned();
    push_decimal(&mut text, id as u64);
    text.append(what);
    assert(text@ =~= about_cue(id, what@));
    text
}

/// The runs of words that a formatted cue is cut into, or what is wrong with
/// the formatted text.
pub open spec fn formatted_ranges(words: Seq<Word>, cue: Cue, formatted: Seq<char>) -> Result<
    Seq<RangeUsize>,
    Seq<char>,
> {
    match cue.word_range {
        None => Err(about_cue(cue.id, " has no word range"@)),
        Some(range) => {
            let own = words.subrange(range.start as int, range.end as int);
            if changed(words_joined(word_texts(own)), formatted) {
                Err(about_cue(cue.id, " changed content while splitting"@))
            } else {
                match cut_points(own, unbroken(formatted), break_offsets(formatted, 0)) {
                    Some(cuts) => Ok(runs(range, cuts)),
                    None => Err(about_cue(cue.id, " break does not align to a word boundary"@)),
                }
            }
        },
    }
}

proof fn lemma_words_before(words: Seq<Word>, position: int, end: int)
    requires
        1 <= end,
    ensures
        match words_before(words, position, end) {
            Some(e) => end <= e < words.len() && boundary(words, e) == position,
            None => forall|e: int|
                end <= e < words.len() ==> #[trigger] boundary(words, e) != position,
        },
    decreases words.len() - end,
{
    if end < words.len() {
        lemma_words_before(words, position, end + 1);
    }
}

/// A break that does not stand at a word spoils the whole.
proof fn lemma_cut_points_fail(words: Seq<Word>, clean: Seq<char>, breaks: Seq<int>, n: int)
    requires
        0 <= n <= breaks.len(),
        cut_points(words, clean, breaks.take(n)) is None,
    ensures
        cut_points(words, clean, breaks) is None,
    decreases breaks.len() - n,
{
    if n < breaks.len() {
        assert(breaks.take(n + 1).drop_last() =~= breaks.take(n));
        lemma_cut_points_fail(words, clean, breaks, n + 1);
    } else {
        assert(breaks.take(n) =~= breaks);
    }
}

fn find_cuts(words: &[Word], clean: &Vec<char>, breaks: &Vec<usize>) -> (cuts: Option<Vec<usize>>)
    ensures
        match cuts {
            Some(cuts) => cut_points(words@, clean@, offsets(breaks@)) == Some(offsets(cuts@)),
            None => cut_points(words@, clean@, offsets(breaks@)) is None,
        },
        cuts matches Some(cuts) ==> cuts@.len() == breaks@.len() && forall|i: int|
            0 <= i < cuts@.len() ==> #[trigger] cuts@[i] < words@.len(),
{
    let lengths = boundaries_of(words);
    let ghost marks = offsets(breaks@);
    let ghost own = |q: int| is_boundary(words@, q);
    proof {
        let given = |q: int| offsets(lengths@).contains(q);
        assert forall|q: int| #[trigger] offsets(lengths@).contains(q) == is_boundary(words@, q) by {
            if offsets(lengths@).contains(q) {
                let k = choose|k: int| 0 <= k < lengths@.len() && offsets(lengths@)[k] == q;
                assert(lengths@[k] == boundary(words@, k + 1));
            }
            if is_boundary(words@, q) {
                let end = choose|end: int|
                    1 <= end < words@.len() && #[trigger] boundary(words@, end) == q;
                assert(lengths@[end - 1] == boundary(words@, end));
                assert(offsets(lengths@)[end - 1] == q);
            }
        }
        assert(given =~= own);
    }
    let mut cuts: Vec<usize> = Vec::new();
    let mut i: usize = 0;
    assert(marks.take(0) =~= seq![]);
    assert(offsets(cuts@) =~= seq![]);
    while i < breaks.len()
        invariant
            i <= breaks.len(),
            marks == offsets(breaks@),
            own == (|q: int| is_boundary(words@, q)),
            own == (|q: int| offsets(lengths@).contains(q)),
            cut_points(words@, clean@, marks.take(i as int)) == Some(offsets(cuts@)),
            cuts@.len() == i,
            forall|k: int| 0 <= k < cuts@.len() ==> #[trigger] cuts@[k] < words@.len(),
        decreases breaks.len() - i,
    {
        proof {
            assert(marks.take(i + 1).drop_last() =~= marks.take(i as int));
            assert(marks.take(i + 1).last() == breaks@[i as int]);
        }
        let position: usize = match normalized_break_position(breaks[i], clean, &lengths) {
            Some(position) => position,
            None => {
                proof {
                    lemma_cut_points_fail(words@, clean@, marks, i + 1);
                }
                return None;
            },
        };
        match boundary_index(words, position) {
            Ok(end) => {
                let ghost before = cuts@;
                cuts.push(end);
                proof {
                    lemma_words_before(words@, position as int, 1);
                    assert(offsets(cuts@) =~= offsets(before).push(end as int));
                }
            },
            Err(_) => {
                proof {
                    lemma_cut_points_fail(words@, clean@, marks, i + 1);
                }
                return None;
            },
        }
        i += 1;
    }
    assert(marks.take(i as int) =~= marks);
    Some(cuts)
}

/// The runs of words that a formatted cue is cut into.
pub fn split_ranges_for_formatted(transcript: &Transcript, cue: &Cue, formatted: &str) -> (result:
    Result<Vec<RangeUsize>, String>)
    requires
        cue.word_range matches Some(range) ==> range.start <= range.end <= transcript.words@.len(),
    ensures
        match result {
            Ok(ranges) => formatted_ranges(transcript.words@, *cue, formatted@) == Ok::<
                Seq<RangeUsize>,
                Seq<char>,
            >(ranges@),
            Err(text) => formatted_ranges(transcript.words@, *cue, formatted@) == Err::<
                Seq<RangeUsize>,
                Seq<char>,
            >(text@),
        },
{
    let range: RangeUsize = match cue.word_range {
        Some(range) => range,
        None => {
            return Err(cue_sentence(cue.id, " has no word range"));
        },
    };
    let words = slice_subrange(transcript.words.as_slice(), range.start, range.end);
    let original = join_word_texts(words);
    if is_changed(original.as_str(), formatted) {
        return Err(cue_sentence(cue.id, " changed content while splitting"));
    }
    let (clean, breaks) = remove_break_markers(formatted);
    let clean_chars = chars_of(clean.as_str());
    let cuts = match find_cuts(words, &clean_chars, &breaks) {
        Some(cuts) => cuts,
        None => {
            return Err(cue_sentence(cue.id, " break does not align to a word boundary"));
        },
    };
    let mut ranges: Vec<RangeUsize> = Vec::new();
    let mut start: usize = range.start;
    let mut i: usize = 0;
    let ghost all = runs(range, offsets(cuts@));
    while i < cuts.len()
        invariant
            i <= cuts.len(),
            range.start <= range.end,
            words@.len() == range.end - range.start,
            all == runs(range, offsets(cuts@)),
            ranges@ == all.take(i as int),
            start == all[i as int].start,
            forall|k: int| 0 <= k < cuts@.len() ==> #[trigger] cuts@[k] < words@.len(),
        decreases cuts.len() - i,
    {
        let end: usize = range.start + cuts[i];
        ranges.push(RangeUsize::new(start, end));
        start = end;
        i += 1;
        assert(ranges@ =~= all.take(i as int));
    }
    ranges.push(RangeUsize::new(start, range.end));
    assert(ranges@ =~= all);
    Ok(ranges)
}

/// The runs of a formatted cue follow each other from the first word of the
/// cue to its last.
pub proof fn law_runs_follow_each_other(words: Seq<Word>, cue: Cue, formatted: Seq<char>)
    requires
        cue.word_range matches Some(range) && range.start <= range.end <= words.len(),
    ensures
        formatted_ranges(words, cue, formatted) matches Ok(ranges) ==> {
            &&& ranges.len() > 0
            &&& ranges[0].start == cue.word_range->0.start
            &&& ranges.last().end == cue.word_range->0.end
            &&& forall|i: int|
                0 < i < ranges.len() ==> (#[trigger] ranges[i]).start == ranges[i - 1].end
        },
{
}

/// A text without markers leaves the cue in one piece.
pub proof fn law_no_marker_no_cut(words: Seq<Word>, cue: Cue, formatted: Seq<char>)
    requires
        cue.word_range matches Some(range) && range.start <= range.end <= words.len(),
        position_of(formatted, "<br>"@, 0) is None,
        formatted_ranges(words, cue, formatted) is Ok,
    ensures
        formatted_ranges(words, cue, formatted) == Ok::<Seq<RangeUsize>, Seq<char>>(
            seq![cue.word_range->0],
        ),
{
    let range = cue.word_range->0;
    let own = words.subrange(range.start as int, range.end as int);
    assert(cut_points(own, unbroken(formatted), seq![]) == Some(Seq::<int>::empty()));
    assert(runs(range, seq![]) =~= seq![range]);
}

/// No break marker stands in the text.
pub open spec fn free_of_breaks(text: Seq<char>) -> bool {
    forall|i: int|
        0 <= i && i + 4 <= text.len() && #[trigger] text[i] == '<' ==> !(text[i + 1] == 'b' && text[i
            + 2] == 'r' && text[i + 3] == '>')
}

proof fn lemma_found_at(text: Seq<char>, needle: Seq<char>, from: int, p: int)
    requires
        0 <= from <= p,
        stands(text, needle, p),
        forall|i: int| from <= i < p ==> !#[trigger] stands(text, needle, i),
    ensures
        position_of(text, needle, from) == Some(p),
    decreases p - from,
{
    if from < p {
        assert(!stands(text, needle, from));
        lemma_found_at(text, needle, from + 1, p);
    }
}

proof fn lemma_not_found(text: Seq<char>, needle: Seq<char>, from: int)
    requires
        0 <= from,
        forall|i: int| from <= i ==> !#[trigger] stands(text, needle, i),
    ensures
        position_of(text, needle, from) is None,
    decreases text.len() - from,
{
    assert(!stands(text, needle, from));
    if from < text.len() {
        lemma_not_found(text, needle, from + 1);
    }
}

proof fn lemma_no_break_stands(text: Seq<char>)
    requires
        free_of_breaks(text),
    ensures
        position_of(text, "<br>"@, 0) is None,
{
    reveal_strlit("<br>");
    assert forall|i: int| 0 <= i implies !#[trigger] stands(text, "<br>"@, i) by {
        if stands(text, "<br>"@, i) {
            let piece = text.subrange(i, i + 4);
            assert(piece[0] == text[i] && piece[1] == text[i + 1] && piece[2] == text[i + 2]
                && piece[3] == text[i + 3]);
        }
    }
    lemma_not_found(text, "<br>"@, 0);
}

/// A marker is taken out of the text, what stood before and behind it stays,
/// and where it stood is noted down. A text without markers stays as it is.
pub proof fn law_markers_are_taken_out(before: Seq<char>, behind: Seq<char>, done: int)
    requires
        free_of_breaks(before),
    ensures
        unbroken(before + "<br>"@ + behind) == before + unbroken(behind),
        break_offsets(before + "<br>"@ + behind, done) == seq![done + before.len()] + break_offsets(
            behind,
            done + before.len(),
        ),
        unbroken(before) == before,
        break_offsets(before, done) == Seq::<int>::empty(),
{
    reveal_strlit("<br>");
    let text = before + "<br>"@ + behind;
    let p = before.len() as int;
    lemma_no_break_stands(before);
    assert(text.subrange(p, p + 4) =~= "<br>"@);
    assert forall|i: int| 0 <= i < p implies !#[trigger] stands(text, "<br>"@, i) by {
        if stands(text, "<br>"@, i) {
            let piece = text.subrange(i, i + 4);
            assert(piece[0] == text[i] && piece[1] == text[i + 1] && piece[2] == text[i + 2]
                && piece[3] == text[i + 3]);
            assert(text[p] == '<');
            if i + 4 <= p {
                assert(before[i] == '<');
            }
        }
    }
    lemma_found_at(text, "<br>"@, 0, p);
    assert(text.take(p) =~= before);
    assert(text.skip(p + 4) =~= behind);
}

/// The first words of a cue, joined.
pub open spec fn joined_words(words: Seq<Word>, count: int) -> Seq<char> {
    words_joined(word_texts(words.take(count)))
}

proof fn lemma_one_word_more(words: Seq<Word>, k: int)
    requires
        0 <= k < words.len(),
    ensures
        joined_words(words, k).is_prefix_of(joined_words(words, k + 1)),
        joined_words(words, k + 1).len() >= joined_words(words, k).len() + nfc(words[k].text@).len(),
{
    let front = word_texts(words.take(k));
    assert(word_texts(words.take(k + 1)) =~= front.push(words[k].text@));
    law_words_are_joined_in_order(front, words[k].text@);
    let grown = joined_words(words, k + 1);
    assert(grown.subrange(0, joined_words(words, k).len() as int) =~= joined_words(words, k));
}

proof fn lemma_words_grow(words: Seq<Word>, i: int, j: int)
    requires
        0 <= i <= j <= words.len(),
    ensures
        joined_words(words, i).is_prefix_of(joined_words(words, j)),
    decreases j - i,
{
    if i < j {
        lemma_words_grow(words, i, j - 1);
        lemma_one_word_more(words, j - 1);
        let a = joined_words(words, i);
        let b = joined_words(words, j - 1);
        let c = joined_words(words, j);
        assert(a =~= b.subrange(0, a.len() as int));
        assert(b =~= c.subrange(0, b.len() as int));
        assert(a =~= c.subrange(0, a.len() as int));
    } else {
        let a = joined_words(words, i);
        assert(a =~= a.subrange(0, a.len() as int));
    }
}

proof fn lemma_first_words_before(words: Seq<Word>, end: int, k: int)
    requires
        1 <= end <= k < words.len(),
        forall|e: int| end <= e < k ==> #[trigger] boundary(words, e) != boundary(words, k),
    ensures
        words_before(words, boundary(words, k), end) == Some(k),
    decreases k - end,
{
    if end < k {
        assert(boundary(words, end) != boundary(words, k));
        lemma_first_words_before(words, end + 1, k);
    }
}

/// The words of a cue can be cut in front of the word `k`: the words before it
/// have an end of their own.
pub open spec fn can_be_cut_at(words: Seq<Word>, k: int) -> bool {
    &&& 1 <= k < words.len()
    &&& k == 1 || nfc(words[k - 1].text@).len() > 0
}

proof fn lemma_boundary_is_found(words: Seq<Word>, k: int)
    requires
        can_be_cut_at(words, k),
    ensures
        is_boundary(words, boundary(words, k)),
        words_before(words, boundary(words, k), 1) == Some(k),
{
    assert forall|e: int| 1 <= e < k implies #[trigger] boundary(words, e) != boundary(
        words,
        k,
    ) by {
        lemma_words_grow(words, e, k - 1);
        lemma_one_word_more(words, k - 1);
    }
    lemma_first_words_before(words, 1, k);
}

proof fn lemma_one_cut(words: Seq<Word>, clean: Seq<char>, position: int, p: int, k: int)
    requires
        break_position(position, clean, |q: int| is_boundary(words, q)) == Some(p),
        words_before(words, p, 1) == Some(k),
    ensures
        cut_points(words, clean, seq![position]) == Some(seq![k]),
{
    let breaks = seq![position];
    assert(breaks.drop_last() =~= seq![]);
    assert(cut_points(words, clean, breaks.drop_last()) == Some(Seq::<int>::empty()));
    assert(Seq::<int>::empty().push(k) =~= seq![k]);
}

/// A break between two words of a cue cuts it between them: whether it stands
/// directly behind the words before it, or directly in front of the word behind
/// it, after the space between the two, or in place of that space.
pub proof fn law_breaks_cut_in_front_of_the_next_word(
    words: Seq<Word>,
    cue: Cue,
    range: RangeUsize,
    k: int,
)
    requires
        cue.word_range == Some(range),
        range.start <= range.end <= words.len(),
        can_be_cut_at(words.subrange(range.start as int, range.end as int), k),
        free_of_breaks(
            words_joined(word_texts(words.subrange(range.start as int, range.end as int))),
        ),
    ensures
        ({
            let own = words.subrange(range.start as int, range.end as int);
            let text = words_joined(word_texts(own));
            let front = words_joined(word_texts(own.take(k)));
            let end = front.len() as int;
            let cut = Ok::<Seq<RangeUsize>, Seq<char>>(
                seq![
                    RangeUsize { start: range.start, end: (range.start + k) as usize },
                    RangeUsize { start: (range.start + k) as usize, end: range.end },
                ],
            );
            &&& formatted_ranges(words, cue, text.take(end) + "<br>"@ + text.skip(end)) == cut
            &&& words_joined(word_texts(own.take(k + 1))) == front + seq![' '] + nfc(own[k].text@)
                && nfc(own[k].text@).len() > 0 ==> {
                &&& formatted_ranges(
                    words,
                    cue,
                    text.take(end + 1) + "<br>"@ + text.skip(end + 1),
                ) == cut
                &&& end == 0 || text[end - 1] != ' ' ==> formatted_ranges(
                    words,
                    cue,
                    text.take(end) + "<br>"@ + text.skip(end + 1),
                ) == cut
            }
        }),
{
    let own = words.subrange(range.start as int, range.end as int);
    let n = own.len() as int;
    let text = words_joined(word_texts(own));
    let front = joined_words(own, k);
    let end = front.len() as int;
    assert(own.take(n) =~= own);
    lemma_words_grow(own, k, n);
    assert(text.take(end) =~= front);
    lemma_boundary_is_found(own, k);
    let cuts = seq![k];
    assert(runs(range, cuts) =~= seq![
        RangeUsize { start: range.start, end: (range.start + k) as usize },
        RangeUsize { start: (range.start + k) as usize, end: range.end },
    ]);
    lemma_pieces_are_free(text, end, end);
    lemma_one_marker(text.take(end), text.skip(end));
    assert(text.take(end) + text.skip(end) =~= text);
    lemma_one_cut(own, text, end, end, k);
    if joined_words(own, k + 1) == front + seq![' '] + nfc(own[k].text@) && nfc(own[k].text@).len()
        > 0 {
        let grown = joined_words(own, k + 1);
        lemma_words_grow(own, k + 1, n);
        assert(text.take(grown.len() as int) =~= grown);
        assert(text[end] == grown[end]);
        assert(text[end] == ' ');
        // In front of the next word.
        lemma_pieces_are_free(text, end + 1, end + 1);
        lemma_one_marker(text.take(end + 1), text.skip(end + 1));
        assert(text.take(end + 1) + text.skip(end + 1) =~= text);
        assert(!is_boundary(own, end + 1)) by {
            assert forall|e: int| 1 <= e < own.len() implies #[trigger] boundary(own, e) != end
                + 1 by {
                if e <= k {
                    lemma_words_grow(own, e, k);
                } else {
                    lemma_words_grow(own, k + 1, e);
                }
            }
        }
        lemma_one_cut(own, text, end + 1, end, k);
        // In place of the space.
        if end == 0 || text[end - 1] != ' ' {
            let clean = text.take(end) + text.skip(end + 1);
            lemma_pieces_are_free(text, end, end + 1);
            lemma_one_marker(text.take(end), text.skip(end + 1));
            lemma_space_comes_back(text, end, clean.len() as int);
            assert(text.take(text.len() as int) =~= text);
            lemma_one_cut(own, clean, end, end, k);
        }
    }
}

proof fn lemma_pieces_are_free(text: Seq<char>, a: int, b: int)
    requires
        free_of_breaks(text),
        0 <= a <= text.len(),
        0 <= b <= text.len(),
    ensures
        free_of_breaks(text.take(a)),
        free_of_breaks(text.skip(b)),
{
    assert forall|i: int|
        0 <= i && i + 4 <= text.skip(b).len() && #[trigger] text.skip(b)[i] == '<' implies !(
    text.skip(b)[i + 1] == 'b' && text.skip(b)[i + 2] == 'r' && text.skip(b)[i + 3] == '>') by {
        assert(text[b + i] == '<');
    }
    assert forall|i: int|
        0 <= i && i + 4 <= text.take(a).len() && #[trigger] text.take(a)[i] == '<' implies !(
    text.take(a)[i + 1] == 'b' && text.take(a)[i + 2] == 'r' && text.take(a)[i + 3] == '>') by {
        assert(text[i] == '<');
    }
}

proof fn lemma_one_marker(before: Seq<char>, behind: Seq<char>)
    requires
        free_of_breaks(before),
        free_of_breaks(behind),
    ensures
        unbroken(before + "<br>"@ + behind) == before + behind,
        break_offsets(before + "<br>"@ + behind, 0) == seq![before.len() as int],
{
    law_markers_are_taken_out(before, behind, 0);
    lemma_no_break_stands(behind);
    assert(seq![before.len() as int] + Seq::<int>::empty() =~= seq![before.len() as int]);
}

proof fn lemma_space_comes_back(text: Seq<char>, at: int, n: int)
    requires
        0 <= at,
        at + 1 < text.len(),
        text[at] == ' ',
        at == 0 || text[at - 1] != ' ',
        0 <= n < text.len(),
    ensures
        spaced(text.take(at) + text.skip(at + 1), seq![at], n) == text.take(
            if n <= at {
                n
            } else {
                n + 1
            },
        ),
    decreases n,
{
    let clean = text.take(at) + text.skip(at + 1);
    if n > 0 {
        let i = n - 1;
        lemma_space_comes_back(text, at, i);
        assert(seq![at].contains(i) == (i == at)) by {
            assert(seq![at][0] == at);
        }
        let before = spaced(clean, seq![at], i);
        if i < at {
            assert(clean[i] == text[i]);
            assert(before.push(clean[i]) =~= text.take(n));
        } else if i == at {
            assert(clean[i] == text[i + 1]);
            if at > 0 {
                assert(clean[i - 1] == text[at - 1]);
            }
            assert(before.push(' ').push(clean[i]) =~= text.take(n + 1));
        } else {
            assert(clean[i] == text[i + 1]);
            assert(before.push(clean[i]) =~= text.take(n + 1));
        }
    } else {
        assert(text.take(0) =~= seq![]);
    }
}

/// A cue is cut only where a marker stands and only between words: there is one
/// run more than there are markers, and each marker stands where the words
/// before it end, or one white space behind.
pub proof fn law_cuts_stand_at_markers(
    words: Seq<Word>,
    cue: Cue,
    range: RangeUsize,
    formatted: Seq<char>,
    ranges: Seq<RangeUsize>,
)
    requires
        cue.word_range == Some(range),
        range.start <= range.end <= words.len(),
        formatted_ranges(words, cue, formatted) == Ok::<Seq<RangeUsize>, Seq<char>>(ranges),
    ensures
        ({
            let own = words.subrange(range.start as int, range.end as int);
            let marks = break_offsets(formatted, 0);
            let text = unbroken(formatted);
            &&& ranges.len() == marks.len() + 1
            &&& forall|i: int|
                0 <= i < marks.len() ==> {
                    let count = (#[trigger] ranges[i]).end - range.start;
                    let end = words_joined(word_texts(own.take(count))).len() as int;
                    &&& 1 <= count < own.len()
                    &&& marks[i] == end || (marks[i] == end + 1 && whitespace(text[end]))
                }
        }),
{
    let own = words.subrange(range.start as int, range.end as int);
    let marks = break_offsets(formatted, 0);
    let text = unbroken(formatted);
    lemma_cuts_are_boundaries(own, text, marks);
    let cuts = cut_points(own, text, marks)->0;
    assert forall|i: int| 0 <= i < marks.len() implies {
        let count = (#[trigger] ranges[i]).end - range.start;
        let end = words_joined(word_texts(own.take(count))).len() as int;
        &&& 1 <= count < own.len()
        &&& marks[i] == end || (marks[i] == end + 1 && whitespace(text[end]))
    } by {
        let c = cuts[i];
        assert(boundary(own, c) == boundary(own, ranges[i].end - range.start));
    }
}

proof fn lemma_cuts_are_boundaries(words: Seq<Word>, clean: Seq<char>, breaks: Seq<int>)
    ensures
        cut_points(words, clean, breaks) matches Some(cuts) ==> cuts.len() == breaks.len() && forall|
            i: int,
        |
            0 <= i < cuts.len() ==> {
                let c = #[trigger] cuts[i];
                &&& 1 <= c < words.len()
                &&& breaks[i] == boundary(words, c) || (breaks[i] == boundary(words, c) + 1
                    && whitespace(clean[boundary(words, c)]))
            },
    decreases breaks.len(),
{
    if breaks.len() > 0 {
        let front = breaks.drop_last();
        lemma_cuts_are_boundaries(words, clean, front);
        if let Some(cuts) = cut_points(words, clean, breaks) {
            let p = break_position(breaks.last(), clean, |q: int| is_boundary(words, q))->0;
            lemma_words_before(words, p, 1);
            let before = cut_points(words, clean, front)->0;
            assert(cuts =~= before.push(words_before(words, p, 1)->0));
            assert forall|i: int| 0 <= i < cuts.len() implies {
                let c = #[trigger] cuts[i];
                &&& 1 <= c < words.len()
                &&& breaks[i] == boundary(words, c) || (breaks[i] == boundary(words, c) + 1
                    && whitespace(clean[boundary(words, c)]))
            } by {
                if i < before.len() {
                    assert(cuts[i] == before[i]);
                    assert(front[i] == breaks[i]);
                }
            }
        }
    }
}

/// A text without breaks that differs from the words of the cue is refused.
pub proof fn law_other_texts_are_refused(words: Seq<Word>, cue: Cue, range: RangeUsize, text: Seq<char>)
    requires
        cue.word_range == Some(range),
        range.start <= range.end <= words.len(),
        free_of_breaks(text),
        text != words_joined(word_texts(words.subrange(range.start as int, range.end as int))),
    ensures
        formatted_ranges(words, cue, text) == Err::<Seq<RangeUsize>, Seq<char>>(
            "cue "@ + decimal(cue.id as nat) + " changed content while splitting"@,
        ),
{
    lemma_no_break_stands(text);
    lemma_nothing_is_spaced(text, text.len() as int);
    assert(text.take(text.len() as int) =~= text);
}

proof fn lemma_nothing_is_spaced(text: Seq<char>, n: int)
    requires
        0 <= n <= text.len(),
    ensures
        spaced(text, seq![], n) == text.take(n),
    decreases n,
{
    if n > 0 {
        lemma_nothing_is_spaced(text, n - 1);
        assert(text.take(n - 1).push(text[n - 1]) =~= text.take(n));
    } else {
        assert(text.take(0) =~= seq![]);
    }
}

/// The words as they are leave the cue in one piece.
pub proof fn law_unchanged_text_is_one_run(words: Seq<Word>, cue: Cue, range: RangeUsize)
    requires
        cue.word_range == Some(range),
        range.start <= range.end <= words.len(),
        free_of_breaks(
            words_joined(word_texts(words.subrange(range.start as int, range.end as int))),
        ),
    ensures
        formatted_ranges(
            words,
            cue,
            words_joined(word_texts(words.subrange(range.start as int, range.end as int))),
        ) == Ok::<Seq<RangeUsize>, Seq<char>>(seq![range]),
{
    let text = words_joined(word_texts(words.subrange(range.start as int, range.end as int)));
    lemma_no_break_stands(text);
    law_no_marker_no_cut(words, cue, text);
}

/// A break puts a space in front of the character behind it, unless there is one
/// already. All other characters stay as they are.
pub proof fn law_breaks_bring_one_space(clean: Seq<char>, breaks: Seq<int>, i: int)
    requires
        0 <= i < clean.len(),
    ensures
        spaced(clean, breaks, 0) == Seq::<char>::empty(),
        !breaks.contains(i) ==> spaced(clean, breaks, i + 1) == spaced(clean, breaks, i).push(
            clean[i],
        ),
        breaks.contains(i) && i > 0 && clean[i - 1] == ' ' ==> spaced(clean, breaks, i + 1)
            == spaced(clean, breaks, i).push(clean[i]),
        breaks.contains(i) && (i == 0 || clean[i - 1] != ' ') ==> spaced(clean, breaks, i + 1)
            == spaced(clean, breaks, i).push(' ').push(clean[i]),
{
}

proof fn lemma_spaced_without(clean: Seq<char>, breaks: Seq<int>, from: int, n: int)
    requires
        0 <= from <= n <= clean.len(),
        forall|i: int| from <= i < n && #[trigger] breaks.contains(i) ==> i > 0 && clean[i - 1] == ' ',
    ensures
        spaced(clean, breaks, n) == spaced(clean, breaks, from) + clean.subrange(from, n),
    decreases n - from,
{
    if from < n {
        lemma_spaced_without(clean, breaks, from, n - 1);
        assert(clean.subrange(from, n) =~= clean.subrange(from, n - 1).push(clean[n - 1]));
        if breaks.contains(n - 1) {
            assert(n - 1 > 0 && clean[n - 2] == ' ');
        }
        assert(spaced(clean, breaks, n) =~= spaced(clean, breaks, from) + clean.subrange(from, n));
    } else {
        assert(clean.subrange(from, n) =~= seq![]);
        assert(spaced(clean, breaks, n) + Seq::<char>::empty() =~= spaced(clean, breaks, n));
    }
}

/// Breaks change nothing, whether they stand behind the space between two parts
/// of a text or in its place.
pub proof fn law_breaks_change_nothing(a: Seq<char>, b: Seq<char>, c: Seq<char>)
    requires
        a.len() > 0,
        b.len() > 0,
        c.len() > 0,
        free_of_breaks(a + seq![' ']),
        free_of_breaks(b),
        free_of_breaks(c),
        b.last() != ' ',
    ensures
        !changed(
            a + seq![' '] + b + seq![' '] + c,
            a + seq![' '] + "<br>"@ + (b + "<br>"@ + c),
        ),
{
    let front = a + seq![' '];
    let original = front + b + seq![' '] + c;
    let formatted = front + "<br>"@ + (b + "<br>"@ + c);
    let p = front.len() as int;
    let q = p + b.len();
    law_markers_are_taken_out(front, b + "<br>"@ + c, 0);
    law_markers_are_taken_out(b, c, p);
    law_markers_are_taken_out(c, c, q);
    let clean = unbroken(formatted);
    assert(clean =~= front + b + c);
    let breaks = break_offsets(formatted, 0);
    assert(breaks =~= seq![p, q]);
    assert forall|i: int| #[trigger] breaks.contains(i) implies i == p || i == q by {}
    assert(breaks[0] == p && breaks[1] == q);
    assert(breaks.contains(p) && breaks.contains(q));
    assert(clean[p - 1] == ' ');
    assert(clean[q - 1] == b.last());
    lemma_spaced_without(clean, breaks, 0, q);
    let n = clean.len() as int;
    assert(spaced(clean, breaks, 0) =~= seq![]);
    assert(spaced(clean, breaks, q) =~= front + b);
    assert(spaced(clean, breaks, q + 1) == spaced(clean, breaks, q).push(' ').push(clean[q]));
    lemma_spaced_without(clean, breaks, q + 1, n);
    assert(spaced(clean, breaks, n) =~= original);
}

} // verus!
