//! Text building blocks: the decimal rendering of integers, and exact
//! character-for-character suffix matching on strings.

use vstd::prelude::*;

verus! {

/// The character of one decimal digit.
pub open spec fn digit_char(d: int) -> char {
    if d == 0 {
        '0'
    } else if d == 1 {
        '1'
    } else if d == 2 {
        '2'
    } else if d == 3 {
        '3'
    } else if d == 4 {
        '4'
    } else if d == 5 {
        '5'
    } else if d == 6 {
        '6'
    } else if d == 7 {
        '7'
    } else if d == 8 {
        '8'
    } else {
        '9'
    }
}

/// The decimal digits of `n`, most significant first, with no leading zero
/// except for `n == 0` itself.
pub open spec fn dec_digits(n: nat) -> Seq<char>
    decreases n,
{
    if n < 10 {
        seq![digit_char(n as int)]
    } else {
        dec_digits(n / 10) + seq![digit_char((n % 10) as int)]
    }
}

/// The conventional decimal rendering of `v`: its digits, preceded by a
/// minus sign when `v` is negative.
pub open spec fn dec_str(v: int) -> Seq<char> {
    if v < 0 {
        seq!['-'] + dec_digits((-v) as nat)
    } else {
        dec_digits(v as nat)
    }
}

/// Appends the character of the single digit `d` to `out`.
fn append_digit(out: &mut String, d: u64)
    requires
        d < 10,
    ensures
        final(out)@ == old(out)@ + seq![digit_char(d as int)],
{
    let lit: &str = if d == 0 {
        "0"
    } else if d == 1 {
        "1"
    } else if d == 2 {
        "2"
    } else if d == 3 {
        "3"
    } else if d == 4 {
        "4"
    } else if d == 5 {
        "5"
    } else if d == 6 {
        "6"
    } else if d == 7 {
        "7"
    } else if d == 8 {
        "8"
    } else {
        "9"
    };
    proof {
        reveal_strlit("0");
        reveal_strlit("1");
        reveal_strlit("2");
        reveal_strlit("3");
        reveal_strlit("4");
        reveal_strlit("5");
        reveal_strlit("6");
        reveal_strlit("7");
        reveal_strlit("8");
        reveal_strlit("9");
        assert(lit@ =~= seq![digit_char(d as int)]);
    }
    out.append(lit);
}

/// Appends the decimal digits of `n` to `out`.
fn append_uint(out: &mut String, n: u64)
    ensures
        final(out)@ == old(out)@ + dec_digits(n as nat),
    decreases n,
{
    if n >= 10 {
        append_uint(out, n / 10);
        append_digit(out, n % 10);
        proof {
            assert(final(out)@ =~= old(out)@ + dec_digits(n as nat));
        }
    } else {
        append_digit(out, n);
    }
}

/// Appends the decimal rendering of `v`, sign included, to `out`.
pub fn append_int(out: &mut String, v: i64)
    requires
        v > i64::MIN,
    ensures
        final(out)@ == old(out)@ + dec_str(v as int),
{
    if v < 0 {
        proof {
            reveal_strlit("-");
        }
        out.append("-");
        let m: u64 = (-v) as u64;
        append_uint(out, m);
        proof {
            assert(final(out)@ =~= old(out)@ + dec_str(v as int));
        }
    } else {
        append_uint(out, v as u64);
    }
}

/// `pat` stands at the very end of `s`.
pub open spec fn is_suffix_of(pat: Seq<char>, s: Seq<char>) -> bool {
    pat.len() <= s.len() && s.subrange(s.len() - pat.len(), s.len() as int) == pat
}

/// Whether `s` ends with `pat`, compared character for character: no case
/// folding, no normalization, no wildcard.
pub fn str_ends_with(s: &str, pat: &str) -> (r: bool)
    ensures
        r == is_suffix_of(pat@, s@),
{
    let slen = s.unicode_len();
    let plen = pat.unicode_len();
    if plen > slen {
        return false;
    }
    let offset = slen - plen;
    let mut i: usize = 0;
    while i < plen
        invariant
            slen == s@.len(),
            plen == pat@.len(),
            plen <= slen,
            offset == slen - plen,
            i <= plen,
            forall|j: int| 0 <= j < i ==> s@[offset + j] == pat@[j],
        decreases plen - i,
    {
        let cs = s.get_char(offset + i);
        let cp = pat.get_char(i);
        if cs != cp {
            proof {
                if is_suffix_of(pat@, s@) {
                    assert(s@.subrange(s@.len() - pat@.len(), s@.len() as int)[i as int]
                        == s@[offset + i]);
                    assert(false);
                }
            }
            return false;
        }
        i += 1;
    }
    proof {
        assert(s@.subrange(s@.len() - pat@.len(), s@.len() as int) =~= pat@);
    }
    true
}

/// Whether `a` and `b` hold the same characters, compared one for one.
pub fn str_eq(a: &str, b: &str) -> (r: bool)
    ensures
        r == (a@ == b@),
{
    let alen = a.unicode_len();
    let blen = b.unicode_len();
    if alen != blen {
        return false;
    }
    let mut i: usize = 0;
    while i < alen
        invariant
            alen == a@.len(),
            alen == b@.len(),
            i <= alen,
            forall|j: int| 0 <= j < i ==> a@[j] == b@[j],
        decreases alen - i,
    {
        if a.get_char(i) != b.get_char(i) {
            return false;
        }
        i += 1;
    }
    proof {
        assert(a@ =~= b@);
    }
    true
}

/// A suffix test is exact: a pattern of the same length that differs from a
/// matching one anywhere cannot match the same string.
pub proof fn lemma_suffix_exclusive(s: Seq<char>, p: Seq<char>, q: Seq<char>)
    requires
        is_suffix_of(p, s),
        p.len() == q.len(),
        p != q,
    ensures
        !is_suffix_of(q, s),
{
    if is_suffix_of(q, s) {
        assert(s.subrange(s.len() - p.len(), s.len() as int) == p);
        assert(s.subrange(s.len() - q.len(), s.len() as int) == q);
        assert(false);
    }
}

} // verus!
