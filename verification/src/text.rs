//! Line-ending normalization for outbound text: carriage returns are
//! stripped, then every line feed becomes a carriage-return + line-feed
//! pair, so outbound lines are canonically terminated whatever convention
//! the caller used.

use crate::strutil::push_char;
use vstd::prelude::*;
use vstd::string::StrSliceExecFns;

verus! {

/// The canonical expansion of one character.
pub open spec fn norm_char(c: char) -> Seq<char> {
    if c == '\r' {
        Seq::empty()
    } else if c == '\n' {
        seq!['\r', '\n']
    } else {
        seq![c]
    }
}

/// The normal form of a text: carriage returns removed, every line feed
/// replaced by a carriage-return + line-feed pair.
pub open spec fn normalize(s: Seq<char>) -> Seq<char>
    decreases s.len(),
{
    if s.len() == 0 {
        Seq::empty()
    } else {
        norm_char(s[0]) + normalize(s.skip(1))
    }
}

/// Normalizing one more character appends its expansion.
pub proof fn lemma_normalize_snoc(a: Seq<char>, c: char)
    ensures
        normalize(a.push(c)) == normalize(a) + norm_char(c),
    decreases a.len(),
{
    let s = a.push(c);
    assert(s.len() > 0);
    assert(normalize(s) == norm_char(s[0]) + normalize(s.skip(1)));
    if a.len() == 0 {
        assert(s[0] == c);
        assert(s.skip(1) =~= Seq::<char>::empty());
        assert(normalize(s.skip(1)) == Seq::<char>::empty());
        assert(norm_char(c) + Seq::<char>::empty() =~= normalize(a) + norm_char(c));
    } else {
        assert(s.skip(1) =~= a.skip(1).push(c));
        lemma_normalize_snoc(a.skip(1), c);
        assert(s[0] == a[0]);
        assert(normalize(s) == norm_char(a[0]) + (normalize(a.skip(1)) + norm_char(c)));
        assert(normalize(a) == norm_char(a[0]) + normalize(a.skip(1)));
        assert(norm_char(a[0]) + (normalize(a.skip(1)) + norm_char(c)) =~= (norm_char(a[0])
            + normalize(a.skip(1))) + norm_char(c));
    }
}

/// Whether `u` already ends with a carriage-return + line-feed pair.
pub open spec fn crlf_terminated(u: Seq<char>) -> bool {
    u.len() >= 2 && u[u.len() - 2] == '\r' && u[u.len() - 1] == '\n'
}

/// `u` with exactly one canonical terminator guaranteed at its end.
pub open spec fn with_crlf(u: Seq<char>) -> Seq<char> {
    if crlf_terminated(u) {
        u
    } else {
        u + seq!['\r', '\n']
    }
}

/// Computes the normal form of a text.
pub fn normalize_str(s: &str) -> (r: String)
    ensures
        r@ == normalize(s@),
{
    let n = s.unicode_len();
    let mut out = String::new();
    for i in 0..n
        invariant
            n == s@.len(),
            out@ == normalize(s@.take(i as int)),
    {
        let c = s.get_char(i);
        proof {
            lemma_normalize_snoc(s@.take(i as int), s@[i as int]);
            assert(s@.take(i + 1) =~= s@.take(i as int).push(s@[i as int]));
        }
        if c == '\r' {
            proof {
                assert(normalize(s@.take(i + 1)) =~= normalize(s@.take(i as int)));
            }
        } else if c == '\n' {
            push_char(&mut out, '\r');
            push_char(&mut out, '\n');
            proof {
                assert(out@ =~= normalize(s@.take(i + 1)));
            }
        } else {
            push_char(&mut out, c);
            proof {
                assert(out@ =~= normalize(s@.take(i + 1)));
            }
        }
    }
    proof {
        assert(s@.take(n as int) =~= s@);
    }
    out
}

/// Appends a canonical terminator unless the text already ends with one.
pub fn ensure_crlf(s: &mut String)
    ensures
        final(s)@ == with_crlf(old(s)@),
{
    let n = s.as_str().unicode_len();
    let terminated = n >= 2 && s.as_str().get_char(n - 2) == '\r' && s.as_str().get_char(n - 1)
        == '\n';
    if !terminated {
        push_char(s, '\r');
        push_char(s, '\n');
        proof {
            assert(s@ =~= with_crlf(old(s)@));
        }
    }
}

} // verus!
