//! Verified helpers for character-level work on strings.

use vstd::prelude::*;

verus! {

/// Index of the last occurrence of `c` in `s`, if any.
pub open spec fn rfind_char_spec(s: Seq<char>, c: char) -> Option<int>
    decreases s.len(),
{
    if s.len() == 0 {
        None
    } else if s[s.len() - 1] == c {
        Some(s.len() - 1)
    } else {
        rfind_char_spec(s.drop_last(), c)
    }
}

/// Last occurrence of `c` in `s`, scanning from the end.
pub fn rfind_char(s: &str, c: char) -> (r: Option<usize>)
    ensures
        match r {
            Some(i) => rfind_char_spec(s@, c) == Some(i as int),
            None => rfind_char_spec(s@, c) is None,
        },
{
    let n = s.unicode_len();
    let mut i = n;
    proof {
        assert(s@.subrange(0, n as int) =~= s@);
    }
    while i > 0
        invariant
            i <= n,
            n == s@.len(),
            rfind_char_spec(s@, c) == rfind_char_spec(s@.subrange(0, i as int), c),
        decreases i,
    {
        let ch = s.get_char(i - 1);
        proof {
            assert(s@.subrange(0, i as int).drop_last() =~= s@.subrange(0, i - 1));
        }
        if ch == c {
            return Some(i - 1);
        }
        i = i - 1;
    }
    proof {
        assert(s@.subrange(0, 0) =~= Seq::<char>::empty());
    }
    None
}

/// `s` with every trailing `c` removed.
pub open spec fn trim_end_char_spec(s: Seq<char>, c: char) -> Seq<char>
    decreases s.len(),
{
    if s.len() > 0 && s[s.len() - 1] == c {
        trim_end_char_spec(s.drop_last(), c)
    } else {
        s
    }
}

/// Number of characters left after removing every trailing `c` from `s`.
pub fn trim_end_char_len(s: &str, c: char) -> (r: usize)
    ensures
        r <= s@.len(),
        s@.subrange(0, r as int) == trim_end_char_spec(s@, c),
{
    let n = s.unicode_len();
    let mut e = n;
    proof {
        assert(s@.subrange(0, n as int) =~= s@);
    }
    loop
        invariant
            e <= n,
            n == s@.len(),
            trim_end_char_spec(s@, c) == trim_end_char_spec(s@.subrange(0, e as int), c),
        ensures
            e <= n,
            n == s@.len(),
            trim_end_char_spec(s@, c) == trim_end_char_spec(s@.subrange(0, e as int), c),
            e == 0 || s@[e - 1] != c,
        decreases e,
    {
        if e == 0 {
            break;
        }
        let ch = s.get_char(e - 1);
        if ch != c {
            break;
        }
        proof {
            assert(s@.subrange(0, e as int).drop_last() =~= s@.subrange(0, e - 1));
        }
        e = e - 1;
    }
    proof {
        if e == 0 {
            assert(s@.subrange(0, 0) =~= Seq::<char>::empty());
        }
    }
    e
}

/// Character-for-character equality of two string slices.
pub fn str_eq(a: &str, b: &str) -> (r: bool)
    ensures
        r == (a@ == b@),
{
    let an = a.unicode_len();
    let bn = b.unicode_len();
    if an != bn {
        return false;
    }
    let mut i: usize = 0;
    while i < an
        invariant
            i <= an,
            an == a@.len(),
            an == b@.len(),
            forall|j: int| 0 <= j < i ==> a@[j] == b@[j],
        decreases an - i,
    {
        if a.get_char(i) != b.get_char(i) {
            return false;
        }
        i = i + 1;
    }
    proof {
        assert(a@ =~= b@);
    }
    true
}

/// Whether `c` occurs in `s`.
pub fn contains_char(s: &str, c: char) -> (r: bool)
    ensures
        r == exists|j: int| 0 <= j < s@.len() && s@[j] == c,
{
    let n = s.unicode_len();
    let mut i: usize = 0;
    while i < n
        invariant
            i <= n,
            n == s@.len(),
            forall|j: int| 0 <= j < i ==> s@[j] != c,
        decreases n - i,
    {
        if s.get_char(i) == c {
            return true;
        }
        i = i + 1;
    }
    false
}

/// Whether `p` occurs in `s` starting at position `k`.
pub fn matches_at(s: &str, k: usize, p: &str) -> (r: bool)
    requires
        k <= s@.len(),
    ensures
        r == (k + p@.len() <= s@.len() && s@.subrange(k as int, k + p@.len()) == p@),
{
    let n = s.unicode_len();
    let pn = p.unicode_len();
    if pn > n - k {
        return false;
    }
    let mut j: usize = 0;
    while j < pn
        invariant
            j <= pn,
            k + pn <= n,
            n == s@.len(),
            pn == p@.len(),
            forall|t: int| 0 <= t < j ==> s@[k + t] == p@[t],
        decreases pn - j,
    {
        if s.get_char(k + j) != p.get_char(j) {
            proof {
                assert(s@.subrange(k as int, k + p@.len())[j as int] == s@[k + j]);
            }
            return false;
        }
        j = j + 1;
    }
    proof {
        assert(s@.subrange(k as int, k + p@.len()) =~= p@);
    }
    true
}

/// `s` with every copy of the leading prefix `p` removed.
pub open spec fn strip_prefix_all(s: Seq<char>, p: Seq<char>) -> Seq<char>
    decreases s.len(),
{
    if p.len() > 0 && s.len() >= p.len() && s.subrange(0, p.len() as int) == p {
        strip_prefix_all(s.skip(p.len() as int), p)
    } else {
        s
    }
}

/// Number of characters consumed, from `start`, by repeated copies of `p`.
pub fn strip_prefix_all_len(s: &str, start: usize, p: &str) -> (k: usize)
    requires
        start <= s@.len(),
        p@.len() > 0,
    ensures
        start <= k <= s@.len(),
        s@.skip(k as int) == strip_prefix_all(s@.skip(start as int), p@),
{
    let n = s.unicode_len();
    let pn = p.unicode_len();
    let mut k = start;
    loop
        invariant
            start <= k <= n,
            n == s@.len(),
            pn == p@.len(),
            pn > 0,
            strip_prefix_all(s@.skip(start as int), p@) == strip_prefix_all(
                s@.skip(k as int),
                p@,
            ),
        ensures
            start <= k <= s@.len(),
            strip_prefix_all(s@.skip(start as int), p@) == strip_prefix_all(
                s@.skip(k as int),
                p@,
            ),
            !(k + p@.len() <= s@.len() && s@.subrange(k as int, k + p@.len()) == p@),
        decreases s@.len() - k,
    {
        if !matches_at(s, k, p) {
            break;
        }
        proof {
            let rem = s@.skip(k as int);
            assert(rem.subrange(0, pn as int) =~= s@.subrange(k as int, k + pn));
            assert(rem.skip(pn as int) =~= s@.skip(k + pn));
        }
        k = k + pn;
    }
    proof {
        let rem = s@.skip(k as int);
        if rem.len() >= pn {
            assert(rem.subrange(0, pn as int) =~= s@.subrange(k as int, k + pn));
        }
        assert(strip_prefix_all(rem, p@) == rem);
    }
    k
}

/// Decimal digit character for a value in `0..=9`.
pub open spec fn dec_digit(d: int) -> char {
    if d == 0 {
        '0'
    } else if d == 1 {
        '1'
    } else if d == 2 {
        '2'
    } else if d == 3 {
        '3'
    } else if d == 4 {
        '4'
    } else if d == 5 {
        '5'
    } else if d == 6 {
        '6'
    } else if d == 7 {
        '7'
    } else if d == 8 {
        '8'
    } else {
        '9'
    }
}

/// Decimal rendering of a non-negative integer, most significant digit first,
/// without leading zeros (a lone `0` for zero).
pub open spec fn dec_str_spec(n: int) -> Seq<char>
    decreases n,
{
    if n < 10 {
        seq![dec_digit(n)]
    } else {
        dec_str_spec(n / 10).push(dec_digit(n % 10))
    }
}

/// Relies on std's `Display` implementation for `u64` (via `format!`):
/// it writes the value in base 10 with no sign and no leading zeros.
#[verifier::external_body]
pub fn u64_to_decimal(n: u64) -> (r: String)
    ensures
        r@ == dec_str_spec(n as int),
{
    format!("{}", n)
}

} // verus!
