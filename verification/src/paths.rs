//! File paths as texts, with `/` between their parts.
use vstd::prelude::*;
use vstd::string::*;

use crate::text::{
    chars_of, decimal, digits_value, law_numerals_are_read_back, push_decimal,
};

verus! {

/// The path `part` below `base`. An absolute part stands for itself.
pub open spec fn below(base: Seq<char>, part: Seq<char>) -> Seq<char> {
    if part.len() > 0 && part[0] == '/' {
        part
    } else if base.len() == 0 || base.last() == '/' {
        base + part
    } else {
        base + "/"@ + part
    }
}

pub fn join_path(base: &str, part: &str) -> (path: String)
    ensures
        path@ == below(base@, part@),
{
    let tail = chars_of(part);
    if tail.len() > 0 && tail[0] == '/' {
        return part.to_owned();
    }
    let head = chars_of(base);
    let mut path = base.to_owned();
    if head.len() > 0 && head[head.len() - 1] != '/' {
        path.append("/");
    }
    path.append(part);
    assert(path@ =~= below(base@, part@));
    path
}

/// So many zeros.
pub open spec fn zeros(n: int) -> Seq<char>
    decreases n,
{
    if n <= 0 {
        seq![]
    } else {
        zeros(n - 1).push('0')
    }
}

/// The numeral of `n` with zeros in front, up to four digits.
pub open spec fn four_digits(n: nat) -> Seq<char> {
    zeros(4 - decimal(n).len()) + decimal(n)
}

proof fn lemma_digits(n: nat)
    ensures
        n < 10 ==> decimal(n).len() == 1,
        10 <= n < 100 ==> decimal(n).len() == 2,
        100 <= n < 1000 ==> decimal(n).len() == 3,
        1000 <= n ==> decimal(n).len() >= 4,
    decreases n,
{
    if n >= 10 {
        lemma_digits(n / 10);
    }
}

/// Append the numeral of `n` with zeros in front, up to four digits.
pub fn push_four_digits(out: &mut String, n: u32)
    ensures
        final(out)@ == old(out)@ + four_digits(n as nat),
{
    proof {
        lemma_digits(n as nat);
        reveal_with_fuel(zeros, 4);
    }
    if n < 10 {
        out.append("000");
    } else if n < 100 {
        out.append("00");
    } else if n < 1000 {
        out.append("0");
    }
    push_decimal(out, n as u64);
    proof {
        reveal_strlit("000");
        reveal_strlit("00");
        reveal_strlit("0");
        assert(out@ =~= old(out)@ + four_digits(n as nat));
    }
}

/// A part stands below its directory, behind one slash. A part that begins at the
/// root stands for itself.
pub proof fn law_parts_stand_below(base: Seq<char>, part: Seq<char>)
    requires
        part.len() > 0,
    ensures
        part[0] == '/' ==> below(base, part) == part,
        part[0] != '/' && base.len() > 0 && base.last() != '/' ==> below(base, part) == base + seq![
            '/',
        ] + part,
        part[0] != '/' && base.len() > 0 && base.last() == '/' ==> below(base, part) == base + part,
        part[0] != '/' && base.len() == 0 ==> below(base, part) == part,
{
    reveal_strlit("/");
    assert("/"@ =~= seq!['/']);
    if base.len() == 0 {
        assert(base + part =~= part);
    }
}

/// A padded numeral has at least four digits and stands for the same number.
pub proof fn law_padded_numerals(n: nat)
    ensures
        four_digits(n).len() >= 4,
        digits_value(four_digits(n)) == n,
        n < 10000 ==> four_digits(n).len() == 4,
        n >= 1000 ==> four_digits(n) == decimal(n),
{
    lemma_digits(n);
    lemma_five_digits(n);
    law_numerals_are_read_back(n);
    let k = 4 - decimal(n).len();
    lemma_zeros(k, decimal(n));
    if k <= 0 {
        assert(zeros(k) + decimal(n) =~= decimal(n));
    }
}

proof fn lemma_five_digits(n: nat)
    ensures
        1000 <= n < 10000 ==> decimal(n).len() == 4,
{
    if 1000 <= n < 10000 {
        lemma_digits(n / 10);
    }
}

proof fn lemma_zeros(k: int, text: Seq<char>)
    ensures
        zeros(k).len() == (if k <= 0 {
            0
        } else {
            k
        }),
        digits_value(zeros(k) + text) == digits_value(text),
    decreases text.len(), k,
{
    if text.len() > 0 {
        lemma_zeros(k, text.drop_last());
        assert((zeros(k) + text).drop_last() =~= zeros(k) + text.drop_last());
        assert((zeros(k) + text).last() == text.last());
    } else if k > 0 {
        lemma_zeros(k - 1, text);
        assert(zeros(k) + text =~= zeros(k));
        assert(zeros(k - 1) + text =~= zeros(k - 1));
        assert(zeros(k).drop_last() =~= zeros(k - 1));
    } else {
        assert(zeros(k) + text =~= text);
    }
}

} // verus!
