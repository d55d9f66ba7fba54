//! How close a corrected text is to the text it was made of.
use vstd::prelude::*;

use crate::text::{chars_of, is_whitespace, whitespace};

verus! {

/// The text without white space.
pub open spec fn dense(text: Seq<char>) -> Seq<char>
    decreases text.len(),
{
    if text.len() == 0 {
        seq![]
    } else if whitespace(text.last()) {
        dense(text.drop_last())
    } else {
        dense(text.drop_last()).push(text.last())
    }
}

fn dense_chars(text: &str) -> (chars: Vec<char>)
    ensures
        chars@ == dense(text@),
{
    let all = chars_of(text);
    let mut chars: Vec<char> = Vec::new();
    let mut i: usize = 0;
    assert(all@.take(0) =~= seq![]);
    while i < all.len()
        invariant
            i <= all.len(),
            all@ == text@,
            chars@ == dense(all@.take(i as int)),
        decreases all.len() - i,
    {
        assert(all@.take(i + 1).drop_last() =~= all@.take(i as int));
        if !is_whitespace(all[i]) {
            chars.push(all[i]);
        }
        i += 1;
    }
    assert(all@.take(i as int) =~= all@);
    chars
}

/// The characters of a text that are not white space.
pub fn normalized_len(value: &str) -> (len: usize)
    ensures
        len == dense(value@).len(),
{
    dense_chars(value).len()
}

pub open spec fn least(a: nat, b: nat) -> nat {
    if a <= b {
        a
    } else {
        b
    }
}

/// How many single-character insertions, deletions and replacements lead from
/// one text to the other at least.
pub open spec fn edit_distance(left: Seq<char>, right: Seq<char>) -> nat
    decreases left.len() + right.len(),
{
    if left.len() == 0 {
        right.len()
    } else if right.len() == 0 {
        left.len()
    } else if left.last() == right.last() {
        edit_distance(left.drop_last(), right.drop_last())
    } else {
        1 + least(
            least(
                edit_distance(left.drop_last(), right.drop_last()),
                edit_distance(left.drop_last(), right),
            ),
            edit_distance(left, right.drop_last()),
        )
    }
}

/// The distance is at most the length of the longer text.
pub proof fn law_distance_is_bounded(left: Seq<char>, right: Seq<char>)
    ensures
        edit_distance(left, right) <= left.len() || edit_distance(left, right) <= right.len(),
        edit_distance(left, right) <= left.len() + right.len(),
    decreases left.len() + right.len(),
{
    if left.len() > 0 && right.len() > 0 {
        law_distance_is_bounded(left.drop_last(), right.drop_last());
    }
}

/// A text has the distance zero from itself and from no other.
pub proof fn law_distance_zero_is_equality(left: Seq<char>, right: Seq<char>)
    ensures
        edit_distance(left, right) == 0 <==> left == right,
    decreases left.len() + right.len(),
{
    if left.len() > 0 && right.len() > 0 {
        law_distance_zero_is_equality(left.drop_last(), right.drop_last());
        if left.last() == right.last() {
            assert(left =~= left.drop_last().push(left.last()));
            assert(right =~= right.drop_last().push(right.last()));
        }
    } else {
        assert(left.len() == right.len() ==> left =~= right);
    }
}

/// The distance is the same in both directions.
pub proof fn law_distance_is_symmetric(left: Seq<char>, right: Seq<char>)
    ensures
        edit_distance(left, right) == edit_distance(right, left),
    decreases left.len() + right.len(),
{
    if left.len() > 0 && right.len() > 0 {
        law_distance_is_symmetric(left.drop_last(), right.drop_last());
        law_distance_is_symmetric(left.drop_last(), right);
        law_distance_is_symmetric(left, right.drop_last());
    }
}

/// Compute the distance, row by row.
fn distance(left: &Vec<char>, right: &Vec<char>) -> (d: usize)
    ensures
        d == edit_distance(left@, right@),
{
    let n: usize = right.len();
    let mut previous: Vec<usize> = Vec::new();
    let mut j: usize = 0;
    assert(left@.take(0) =~= seq![]);
    loop
        invariant_except_break
            previous@.len() == j,
        invariant
            j <= n == right.len(),
            left@.take(0) == Seq::<char>::empty(),
            forall|k: int|
                0 <= k < j ==> #[trigger] previous@[k] == edit_distance(
                    left@.take(0),
                    right@.take(k),
                ),
        ensures
            previous@.len() == n + 1,
            forall|k: int|
                0 <= k <= n ==> #[trigger] previous@[k] == edit_distance(
                    left@.take(0),
                    right@.take(k),
                ),
        decreases n - j,
    {
        previous.push(j);
        if j == n {
            break;
        }
        j += 1;
    }
    let mut i: usize = 0;
    while i < left.len()
        invariant
            i <= left.len(),
            n == right.len(),
            previous@.len() == n + 1,
            forall|k: int|
                0 <= k <= n ==> #[trigger] previous@[k] == edit_distance(
                    left@.take(i as int),
                    right@.take(k),
                ),
        decreases left.len() - i,
    {
        let mut current: Vec<usize> = Vec::new();
        current.push(i + 1);
        let ghost row = left@.take(i + 1);
        assert(row.drop_last() =~= left@.take(i as int));
        assert(right@.take(0) =~= seq![]);
        let mut j: usize = 0;
        while j < n
            invariant
                j <= n == right.len(),
                i < left.len(),
                row == left@.take(i + 1),
                row.drop_last() == left@.take(i as int),
                previous@.len() == n + 1,
                current@.len() == j + 1,
                forall|k: int|
                    0 <= k <= n ==> #[trigger] previous@[k] == edit_distance(
                        left@.take(i as int),
                        right@.take(k),
                    ),
                forall|k: int|
                    0 <= k <= j ==> #[trigger] current@[k] == edit_distance(row, right@.take(k)),
            decreases n - j,
        {
            let ghost column = right@.take(j + 1);
            assert(column.drop_last() =~= right@.take(j as int));
            let value: usize = if left[i] == right[j] {
                previous[j]
            } else {
                let mut best: usize = previous[j];
                if previous[j + 1] < best {
                    best = previous[j + 1];
                }
                if current[j] < best {
                    best = current[j];
                }
                proof {
                    assert(previous@[j as int] == edit_distance(row.drop_last(), column.drop_last()));
                    assert(previous@[j + 1] == edit_distance(row.drop_last(), column));
                    assert(current@[j as int] == edit_distance(row, column.drop_last()));
                    law_distance_is_bounded(row, column);
                }
                best + 1
            };
            assert(value == edit_distance(row, column));
            current.push(value);
            j += 1;
        }
        previous = current;
        i += 1;
    }
    assert(left@.take(i as int) =~= left@);
    assert(right@.take(n as int) =~= right@);
    previous[n]
}

/// The texts, white space aside, are less similar than `percent`: similarity is
/// one minus the distance in proportion to the longer text, and texts without
/// any characters are alike.
pub open spec fn below_similarity(left: Seq<char>, right: Seq<char>, percent: u32) -> bool {
    let a = dense(left);
    let b = dense(right);
    let longer = if a.len() >= b.len() {
        a.len()
    } else {
        b.len()
    };
    if longer == 0 {
        100 < percent
    } else {
        (longer - edit_distance(a, b)) * 100 < percent * longer
    }
}

/// Whether the texts are less similar than `percent`.
pub fn is_below_similarity(left: &str, right: &str, percent: u32) -> (answer: bool)
    ensures
        answer == below_similarity(left@, right@, percent),
{
    let a = dense_chars(left);
    let b = dense_chars(right);
    let longer: usize = if a.len() >= b.len() {
        a.len()
    } else {
        b.len()
    };
    if longer == 0 {
        return 100 < percent;
    }
    let d: usize = distance(&a, &b);
    proof {
        law_distance_is_bounded(a@, b@);
        assert(percent * longer <= 0xFFFF_FFFF * 0xFFFF_FFFF_FFFF_FFFF) by (nonlinear_arith)
            requires
                percent <= 0xFFFF_FFFF,
                longer <= 0xFFFF_FFFF_FFFF_FFFF,
        ;
    }
    ((longer - d) as u128) * 100 < (percent as u128) * (longer as u128)
}

/// Texts that differ in white space alone are similar at any threshold up to
/// one hundred percent.
pub proof fn law_equal_texts_are_similar(left: Seq<char>, right: Seq<char>, percent: u32)
    requires
        dense(left) == dense(right),
        percent <= 100,
    ensures
        !below_similarity(left, right, percent),
{
    law_distance_zero_is_equality(dense(left), dense(right));
    let longer = dense(left).len();
    assert(longer * 100 >= percent * longer) by (nonlinear_arith)
        requires
            percent <= 100,
            longer >= 0,
    ;
}

/// No text falls below a threshold of zero.
pub proof fn law_zero_threshold_accepts_all(left: Seq<char>, right: Seq<char>)
    ensures
        !below_similarity(left, right, 0),
{
    law_distance_is_bounded(dense(left), dense(right));
}

/// Replacing a character, putting one in and leaving one out each cost one,
/// wherever in the text they are done.
pub proof fn law_each_edit_costs_one(front: Seq<char>, a: char, b: char, end: Seq<char>)
    requires
        a != b,
    ensures
        edit_distance(front + seq![a] + end, front + seq![b] + end) == 1,
        edit_distance(front + end, front + seq![a] + end) == 1,
        edit_distance(front + seq![a] + end, front + end) == 1,
    decreases end.len(),
{
    let whole = front + end;
    let with_a = front + seq![a] + end;
    let with_b = front + seq![b] + end;
    if end.len() > 0 {
        let rest = end.drop_last();
        law_each_edit_costs_one(front, a, b, rest);
        assert(whole.drop_last() =~= front + rest);
        assert(with_a.drop_last() =~= front + seq![a] + rest);
        assert(with_b.drop_last() =~= front + seq![b] + rest);
        assert(whole.last() == end.last() && with_a.last() == end.last() && with_b.last()
            == end.last());
    } else {
        assert(whole =~= front);
        assert(with_a =~= front.push(a));
        assert(with_b =~= front.push(b));
        assert(front.push(a).drop_last() =~= front);
        assert(front.push(b).drop_last() =~= front);
        law_distance_zero_is_equality(front, front);
        lemma_one_more_costs_one(front, a);
        law_distance_is_symmetric(front, front.push(a));
    }
}

proof fn lemma_one_more_costs_one(text: Seq<char>, c: char)
    ensures
        edit_distance(text, text.push(c)) == 1,
    decreases text.len(),
{
    assert(text.push(c).drop_last() =~= text);
    law_distance_zero_is_equality(text, text);
    if text.len() > 0 && text.last() == c {
        lemma_one_more_costs_one(text.drop_last(), c);
        assert(text.drop_last().push(c) =~= text);
    }
}

/// One more edit changes the distance by one at most, and texts of different
/// lengths are at least as far apart as the lengths.
pub proof fn law_distances_in_small_steps(left: Seq<char>, right: Seq<char>)
    ensures
        edit_distance(left, right) >= left.len() - right.len(),
        edit_distance(left, right) >= right.len() - left.len(),
        left.len() > 0 && right.len() > 0 && left.last() == right.last() ==> edit_distance(
            left,
            right,
        ) == edit_distance(left.drop_last(), right.drop_last()),
    decreases left.len() + right.len(),
{
    if left.len() > 0 && right.len() > 0 {
        law_distances_in_small_steps(left.drop_last(), right.drop_last());
        law_distances_in_small_steps(left.drop_last(), right);
        law_distances_in_small_steps(left, right.drop_last());
    }
}

/// White space does not count for the similarity; every other character does.
pub proof fn law_white_space_does_not_count(text: Seq<char>, c: char)
    ensures
        dense(seq![]) == Seq::<char>::empty(),
        dense(text.push(' ')) == dense(text),
        dense(text.push('\n')) == dense(text),
        dense(text.push('\t')) == dense(text),
        '!' <= c <= '~' ==> dense(text.push(c)) == dense(text).push(c),
        !whitespace(c) ==> dense(text.push(c)) == dense(text).push(c),
        whitespace(c) ==> dense(text.push(c)) == dense(text),
{
    assert(text.push(c).drop_last() =~= text);
    assert(text.push(' ').drop_last() =~= text);
    assert(text.push('\n').drop_last() =~= text);
    assert(text.push('\t').drop_last() =~= text);
}

/// A text is too different where more of the longer text than is allowed has to
/// be edited.
pub proof fn law_similarity_is_a_share_of_edits(left: Seq<char>, right: Seq<char>, percent: u32)
    requires
        percent <= 100,
        dense(left).len() > 0 || dense(right).len() > 0,
    ensures
        ({
            let edits = edit_distance(dense(left), dense(right));
            let longer = if dense(left).len() >= dense(right).len() {
                dense(left).len()
            } else {
                dense(right).len()
            };
            below_similarity(left, right, percent) <==> edits * 100 > (100 - percent) * longer
        }),
{
    let edits = edit_distance(dense(left), dense(right)) as int;
    let longer = if dense(left).len() >= dense(right).len() {
        dense(left).len() as int
    } else {
        dense(right).len() as int
    };
    let p = percent as int;
    assert((longer - edits) * 100 == longer * 100 - edits * 100) by (nonlinear_arith);
    assert((100 - p) * longer == longer * 100 - p * longer) by (nonlinear_arith);
}

} // verus!
