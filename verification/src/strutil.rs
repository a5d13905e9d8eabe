//! Text helpers for the terminal-type sub-protocol: decoding reply bytes,
//! case-folding and trimming (through the std routines, under named
//! results), and small verified routines over the decoded characters.

use vstd::prelude::*;
use vstd::string::StrSliceExecFns;
use vstd::utf8::{decode_utf8, valid_utf8};

verus! {

/// What `str::trim` returns: the characters with leading and trailing
/// Unicode whitespace removed. A function of the characters alone.
pub uninterp spec fn trim_of(s: Seq<char>) -> Seq<char>;

/// What `str::to_uppercase` returns: the Unicode uppercase of the
/// characters. A function of the characters alone.
pub uninterp spec fn upper_of(s: Seq<char>) -> Seq<char>;

/// Relies on str::trim, for Unicode whitespace trimming.
#[verifier::external_body]
pub(crate) fn trim_str(s: &str) -> (r: &str)
    ensures
        r@ == trim_of(s@),
{
    s.trim()
}

/// Relies on str::to_uppercase, for Unicode case folding.
#[verifier::external_body]
pub(crate) fn upper_str(s: &str) -> (r: String)
    ensures
        r@ == upper_of(s@),
{
    s.to_uppercase()
}

/// Relies on String::from_utf8: it succeeds exactly on valid UTF-8 and
/// returns the decoded characters.
#[verifier::external_body]
pub(crate) fn utf8_to_string(v: Vec<u8>) -> (r: Option<String>)
    ensures
        r is Some <==> valid_utf8(v@),
        r matches Some(s) ==> s@ == decode_utf8(v@),
{
    String::from_utf8(v).ok()
}

/// Relies on String::push: it appends one character.
#[verifier::external_body]
pub(crate) fn push_char(s: &mut String, c: char)
    ensures
        final(s)@ == old(s)@.push(c),
{
    s.push(c)
}

/// Character-wise string equality.
pub fn str_eq(a: &str, b: &str) -> (r: bool)
    ensures
        r == (a@ == b@),
{
    let n = a.unicode_len();
    if n != b.unicode_len() {
        return false;
    }
    for i in 0..n
        invariant
            n == a@.len(),
            n == b@.len(),
            forall|j: int| 0 <= j < i ==> a@[j] == b@[j],
    {
        if a.get_char(i) != b.get_char(i) {
            return false;
        }
    }
    proof {
        assert(a@ =~= b@);
    }
    true
}

/// Whether `s` begins with `p`.
pub open spec fn starts_with(s: Seq<char>, p: Seq<char>) -> bool {
    p.len() <= s.len() && s.take(p.len() as int) == p
}

/// Whether `s` ends with `p`.
pub open spec fn ends_with(s: Seq<char>, p: Seq<char>) -> bool {
    p.len() <= s.len() && s.skip(s.len() - p.len()) == p
}

/// Character-wise prefix test.
pub fn str_starts_with(s: &str, p: &str) -> (r: bool)
    ensures
        r == starts_with(s@, p@),
{
    let np = p.unicode_len();
    if np > s.unicode_len() {
        return false;
    }
    for i in 0..np
        invariant
            np == p@.len(),
            np <= s@.len(),
            forall|j: int| 0 <= j < i ==> s@[j] == p@[j],
    {
        if s.get_char(i) != p.get_char(i) {
            proof {
                assert(s@.take(np as int)[i as int] != p@[i as int]);
            }
            return false;
        }
    }
    proof {
        assert(s@.take(np as int) =~= p@);
    }
    true
}

/// Character-wise suffix test.
pub fn str_ends_with(s: &str, p: &str) -> (r: bool)
    ensures
        r == ends_with(s@, p@),
{
    let np = p.unicode_len();
    let ns = s.unicode_len();
    if np > ns {
        return false;
    }
    let off = ns - np;
    for i in 0..np
        invariant
            np == p@.len(),
            ns == s@.len(),
            off == ns - np,
            forall|j: int| 0 <= j < i ==> s@[off + j] == p@[j],
    {
        if s.get_char(off + i) != p.get_char(i) {
            proof {
                assert(s@.skip(off as int)[i as int] != p@[i as int]);
            }
            return false;
        }
    }
    proof {
        assert(s@.skip(off as int) =~= p@);
    }
    true
}

/// The index of the first space in `u`, or `u.len()` when there is none.
pub open spec fn first_space(u: Seq<char>) -> int
    decreases u.len(),
{
    if u.len() == 0 {
        0
    } else if u[0] == ' ' {
        0
    } else {
        1 + first_space(u.skip(1))
    }
}

/// `first_space` is in range, points at a space when one exists, and
/// nothing before it is a space.
pub proof fn lemma_first_space(u: Seq<char>)
    ensures
        0 <= first_space(u) <= u.len(),
        first_space(u) < u.len() ==> u[first_space(u)] == ' ',
        forall|j: int| 0 <= j < first_space(u) ==> u[j] != ' ',
    decreases u.len(),
{
    if u.len() > 0 && u[0] != ' ' {
        lemma_first_space(u.skip(1));
        assert forall|j: int| 0 <= j < first_space(u) implies u[j] != ' ' by {
            if j > 0 {
                assert(u.skip(1)[j - 1] != ' ');
            }
        }
    }
}

/// Finds the first space of `s`, or its length when there is none.
pub fn find_space(s: &str) -> (i: usize)
    ensures
        i == first_space(s@),
{
    let n = s.unicode_len();
    for i in 0..n
        invariant
            n == s@.len(),
            forall|j: int| 0 <= j < i ==> s@[j] != ' ',
    {
        if s.get_char(i) == ' ' {
            proof {
                lemma_first_space(s@);
                if first_space(s@) < i {
                    assert(s@[first_space(s@)] != ' ');
                }
            }
            return i;
        }
    }
    proof {
        lemma_first_space(s@);
        if first_space(s@) < n {
            assert(s@[first_space(s@)] != ' ');
        }
    }
    n
}

/// Whether `c` is a decimal digit.
pub open spec fn is_digit(c: char) -> bool {
    48 <= c as u32 <= 57
}

/// The value of the digit `c`.
pub open spec fn digit_val(c: char) -> int {
    c as u32 - 48
}

/// Whether every character of `u` is a decimal digit.
pub open spec fn all_digits(u: Seq<char>) -> bool {
    forall|i: int| 0 <= i < u.len() ==> is_digit(#[trigger] u[i])
}

/// The number the digit string `u` denotes.
pub open spec fn dec_value(u: Seq<char>) -> int
    decreases u.len(),
{
    if u.len() == 0 {
        0
    } else {
        dec_value(u.drop_last()) * 10 + digit_val(u.last())
    }
}

/// A digit string denotes a non-negative number.
pub proof fn lemma_dec_value_nonneg(u: Seq<char>)
    requires
        all_digits(u),
    ensures
        dec_value(u) >= 0,
    decreases u.len(),
{
    if u.len() > 0 {
        assert(all_digits(u.drop_last())) by {
            assert(forall|i: int| 0 <= i < u.len() - 1 ==> u.drop_last()[i] == u[i]);
        }
        lemma_dec_value_nonneg(u.drop_last());
    }
}

/// Reading more digits never shrinks the value.
pub proof fn lemma_dec_value_monotone(u: Seq<char>, i: int)
    requires
        all_digits(u),
        0 <= i <= u.len(),
    ensures
        dec_value(u.take(i)) <= dec_value(u),
    decreases u.len() - i,
{
    if i < u.len() {
        let t = u.take(i + 1);
        assert(t.drop_last() =~= u.take(i));
        assert(all_digits(u.take(i)));
        lemma_dec_value_nonneg(u.take(i));
        assert(dec_value(t) == dec_value(u.take(i)) * 10 + digit_val(u[i]));
        lemma_dec_value_monotone(u, i + 1);
        assert(u.take(u.len() as int) =~= u);
    } else {
        assert(u.take(i) =~= u);
    }
}

/// Parses a non-empty, all-digit decimal string that fits in `usize`;
/// anything else yields `None`.
pub fn parse_usize(s: &str) -> (r: Option<usize>)
    ensures
        r matches Some(v) ==> s@.len() > 0 && all_digits(s@) && v == dec_value(s@),
        r is None ==> s@.len() == 0 || !all_digits(s@) || dec_value(s@) > usize::MAX,
{
    let n = s.unicode_len();
    if n == 0 {
        return None;
    }
    let mut v: usize = 0;
    for i in 0..n
        invariant
            n == s@.len(),
            n > 0,
            all_digits(s@.take(i as int)),
            v == dec_value(s@.take(i as int)),
    {
        let c = s.get_char(i);
        let cu = c as u32;
        if cu < 48 || cu > 57 {
            return None;
        }
        let d = (cu - 48) as usize;
        proof {
            assert(s@.take(i + 1).drop_last() =~= s@.take(i as int));
            assert(all_digits(s@.take(i + 1)));
        }
        let v10 = match v.checked_mul(10) {
            Some(x) => x,
            None => {
                proof {
                    assert(dec_value(s@.take(i + 1)) > usize::MAX);
                    if all_digits(s@) {
                        lemma_dec_value_monotone(s@, i + 1);
                    }
                }
                return None;
            },
        };
        v = match v10.checked_add(d) {
            Some(x) => x,
            None => {
                proof {
                    assert(dec_value(s@.take(i + 1)) > usize::MAX);
                    if all_digits(s@) {
                        lemma_dec_value_monotone(s@, i + 1);
                    }
                }
                return None;
            },
        };
    }
    proof {
        assert(s@.take(n as int) =~= s@);
    }
    Some(v)
}

} // verus!
