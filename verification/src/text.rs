//! Character-level helpers shared by the interface parser and the method
//! normalizer: whitespace and identifier classification, whitespace
//! skipping, identifier scanning, trimming, and span comparison.

use vstd::prelude::*;
use vstd::string::*;

verus! {

/// Characters treated as whitespace between tokens of an interface definition.
pub open spec fn is_ws(c: char) -> bool {
    c == ' ' || c == '\n' || c == '\t' || c == '\r'
}

/// Characters that may start an identifier.
pub open spec fn is_ident_start(c: char) -> bool {
    ('a' as u32 <= c as u32 && c as u32 <= 'z' as u32) || ('A' as u32 <= c as u32 && c as u32
        <= 'Z' as u32) || c == '_'
}

/// Characters that may continue an identifier.
pub open spec fn is_ident_char(c: char) -> bool {
    is_ident_start(c) || ('0' as u32 <= c as u32 && c as u32 <= '9' as u32)
}

/// Index of the first non-whitespace character at or after `i`.
pub open spec fn skip_ws_at(s: Seq<char>, i: int) -> int
    decreases s.len() - i,
{
    if 0 <= i < s.len() && is_ws(s[i]) {
        skip_ws_at(s, i + 1)
    } else {
        i
    }
}

pub proof fn lemma_skip_ws_at(s: Seq<char>, i: int)
    requires
        0 <= i <= s.len(),
    ensures
        i <= skip_ws_at(s, i) <= s.len(),
        skip_ws_at(s, i) < s.len() ==> !is_ws(s[skip_ws_at(s, i)]),
    decreases s.len() - i,
{
    if i < s.len() && is_ws(s[i]) {
        lemma_skip_ws_at(s, i + 1);
    }
}

/// Index just after the longest run of identifier characters starting at `i`.
pub open spec fn ident_end_at(s: Seq<char>, i: int) -> int
    decreases s.len() - i,
{
    if 0 <= i < s.len() && is_ident_char(s[i]) {
        ident_end_at(s, i + 1)
    } else {
        i
    }
}

pub proof fn lemma_ident_end_at(s: Seq<char>, i: int)
    requires
        0 <= i <= s.len(),
    ensures
        i <= ident_end_at(s, i) <= s.len(),
    decreases s.len() - i,
{
    if i < s.len() && is_ident_char(s[i]) {
        lemma_ident_end_at(s, i + 1);
    }
}

/// Index just before the longest run of trailing whitespace that ends at `e`.
pub open spec fn rtrim_at(s: Seq<char>, e: int) -> int
    decreases e,
{
    if 0 < e <= s.len() && is_ws(s[e - 1]) {
        rtrim_at(s, e - 1)
    } else {
        e
    }
}

pub proof fn lemma_rtrim_at(s: Seq<char>, e: int)
    requires
        0 <= e <= s.len(),
    ensures
        0 <= rtrim_at(s, e) <= e,
    decreases e,
{
    if 0 < e && is_ws(s[e - 1]) {
        lemma_rtrim_at(s, e - 1);
    }
}

/// `s` with leading and trailing whitespace removed.
pub open spec fn trimmed(s: Seq<char>) -> Seq<char> {
    let a = skip_ws_at(s, 0);
    let b = rtrim_at(s, s.len() as int);
    if a <= b {
        s.subrange(a, b)
    } else {
        Seq::empty()
    }
}

/// A sequence consists of whitespace alone.
pub open spec fn all_ws(s: Seq<char>) -> bool {
    skip_ws_at(s, 0) == s.len()
}

/// Whether `c` is interface-definition whitespace.
pub fn ws_char(c: char) -> (r: bool)
    ensures
        r == is_ws(c),
{
    c == ' ' || c == '\n' || c == '\t' || c == '\r'
}

/// Whether `c` may start an identifier.
pub fn ident_start_char(c: char) -> (r: bool)
    ensures
        r == is_ident_start(c),
{
    let u = c as u32;
    (97 <= u && u <= 122) || (65 <= u && u <= 90) || c == '_'
}

/// Whether `s` consists of whitespace alone.
pub fn all_ws_str(s: &str) -> (r: bool)
    ensures
        r == all_ws(s@),
{
    let n = s.unicode_len();
    skip_ws(s, 0, n) == n
}

/// Whether `c` may continue an identifier.
pub fn ident_char(c: char) -> (r: bool)
    ensures
        r == is_ident_char(c),
{
    let u = c as u32;
    (97 <= u && u <= 122) || (65 <= u && u <= 90) || c == '_' || (48 <= u && u <= 57)
}

/// First non-whitespace position at or after `i`; `n` is the length of `s`.
pub fn skip_ws(s: &str, i: usize, n: usize) -> (r: usize)
    requires
        i <= n,
        n == s@.len(),
    ensures
        r == skip_ws_at(s@, i as int),
        i <= r <= n,
    decreases n - i,
{
    proof {
        lemma_skip_ws_at(s@, i as int);
    }
    if i < n && ws_char(s.get_char(i)) {
        skip_ws(s, i + 1, n)
    } else {
        i
    }
}

/// Position just after the identifier run starting at `i`.
pub fn ident_end(s: &str, i: usize, n: usize) -> (r: usize)
    requires
        i <= n,
        n == s@.len(),
    ensures
        r == ident_end_at(s@, i as int),
        i <= r <= n,
    decreases n - i,
{
    proof {
        lemma_ident_end_at(s@, i as int);
    }
    if i < n && ident_char(s.get_char(i)) {
        ident_end(s, i + 1, n)
    } else {
        i
    }
}

/// Position just before the trailing whitespace run that ends at `e`.
pub fn rtrim(s: &str, e: usize) -> (r: usize)
    requires
        e <= s@.len(),
    ensures
        r == rtrim_at(s@, e as int),
        r <= e,
    decreases e,
{
    proof {
        lemma_rtrim_at(s@, e as int);
    }
    if 0 < e && ws_char(s.get_char(e - 1)) {
        rtrim(s, e - 1)
    } else {
        e
    }
}

/// Copy of `s` without leading and trailing whitespace.
pub fn trim_str(s: &str) -> (r: String)
    ensures
        r@ == trimmed(s@),
{
    let n = s.unicode_len();
    let a = skip_ws(s, 0, n);
    let b = rtrim(s, n);
    if a <= b {
        s.substring_char(a, b).to_owned()
    } else {
        String::new()
    }
}

/// Whether the span `[i, j)` of `s` holds exactly the characters of `kw`.
pub fn span_eq(s: &str, i: usize, j: usize, kw: &str) -> (r: bool)
    requires
        i <= j <= s@.len(),
    ensures
        r == (s@.subrange(i as int, j as int) == kw@),
{
    let m = kw.unicode_len();
    if j - i != m {
        proof {
            assert(s@.subrange(i as int, j as int).len() == j - i);
        }
        return false;
    }
    let mut k: usize = 0;
    while k < m
        invariant
            0 <= k <= m,
            m == kw@.len(),
            i <= j <= s@.len(),
            j - i == m,
            forall|t: int| 0 <= t < k ==> s@[i + t] == kw@[t],
        decreases m - k,
    {
        if s.get_char(i + k) != kw.get_char(k) {
            proof {
                assert(s@.subrange(i as int, j as int)[k as int] == s@[i + k]);
            }
            return false;
        }
        k += 1;
    }
    proof {
        assert(s@.subrange(i as int, j as int) =~= kw@);
    }
    true
}

} // verus!
