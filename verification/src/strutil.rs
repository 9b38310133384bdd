//! Character-sequence utilities: ASCII case folding, prefix/suffix tests and
//! substring search over `&str` values, each verified against a direct
//! mathematical statement on the string's view.

use vstd::prelude::*;

verus! {

/// ASCII lower-casing of a single character; non-ASCII-uppercase characters
/// are unchanged.
pub open spec fn lower_char(c: char) -> char {
    match c {
        'A' => 'a',
        'B' => 'b',
        'C' => 'c',
        'D' => 'd',
        'E' => 'e',
        'F' => 'f',
        'G' => 'g',
        'H' => 'h',
        'I' => 'i',
        'J' => 'j',
        'K' => 'k',
        'L' => 'l',
        'M' => 'm',
        'N' => 'n',
        'O' => 'o',
        'P' => 'p',
        'Q' => 'q',
        'R' => 'r',
        'S' => 's',
        'T' => 't',
        'U' => 'u',
        'V' => 'v',
        'W' => 'w',
        'X' => 'x',
        'Y' => 'y',
        'Z' => 'z',
        _ => c,
    }
}

/// ASCII lower-casing of a whole character sequence.
pub open spec fn lower_seq(s: Seq<char>) -> Seq<char> {
    s.map_values(|c: char| lower_char(c))
}

/// `needle` occurs in `hay` starting at index `i`.
pub open spec fn seq_contains_at(hay: Seq<char>, needle: Seq<char>, i: int) -> bool {
    0 <= i && i + needle.len() <= hay.len() && hay.subrange(i, i + needle.len()) == needle
}

/// `needle` occurs somewhere in `hay`.
pub open spec fn seq_contains(hay: Seq<char>, needle: Seq<char>) -> bool {
    exists|i: int| seq_contains_at(hay, needle, i)
}

/// An occurrence in a tail of a sequence is an occurrence in the whole.
pub proof fn lemma_contains_in_skip(hay: Seq<char>, needle: Seq<char>, k: int)
    requires
        0 <= k <= hay.len(),
        seq_contains(hay.skip(k), needle),
    ensures
        seq_contains(hay, needle),
{
    let i = choose|i: int| seq_contains_at(hay.skip(k), needle, i);
    assert(hay.subrange(k + i, k + i + needle.len()) =~= hay.skip(k).subrange(
        i,
        i + needle.len(),
    ));
    assert(seq_contains_at(hay, needle, k + i));
}

/// Executable ASCII lower-casing of one character.
pub fn char_to_lower(c: char) -> (r: char)
    ensures
        r == lower_char(c),
{
    match c {
        'A' => 'a',
        'B' => 'b',
        'C' => 'c',
        'D' => 'd',
        'E' => 'e',
        'F' => 'f',
        'G' => 'g',
        'H' => 'h',
        'I' => 'i',
        'J' => 'j',
        'K' => 'k',
        'L' => 'l',
        'M' => 'm',
        'N' => 'n',
        'O' => 'o',
        'P' => 'p',
        'Q' => 'q',
        'R' => 'r',
        'S' => 's',
        'T' => 't',
        'U' => 'u',
        'V' => 'v',
        'W' => 'w',
        'X' => 'x',
        'Y' => 'y',
        'Z' => 'z',
        _ => c,
    }
}

/// Character-wise string equality.
pub fn str_eq(a: &str, b: &str) -> (r: bool)
    ensures
        r == (a@ == b@),
{
    let n = a.unicode_len();
    if n != b.unicode_len() {
        return false;
    }
    let mut i: usize = 0;
    while i < n
        invariant
            n == a@.len(),
            n == b@.len(),
            i <= n,
            forall|j: int| 0 <= j < i ==> a@[j] == b@[j],
        decreases n - i,
    {
        if a.get_char(i) != b.get_char(i) {
            return false;
        }
        i = i + 1;
    }
    proof {
        assert(a@ =~= b@);
    }
    true
}

/// Exact (case-sensitive) suffix test.
pub fn ends_with(s: &str, suf: &str) -> (r: bool)
    ensures
        r == suf@.is_suffix_of(s@),
{
    let n = s.unicode_len();
    let m = suf.unicode_len();
    if m > n {
        return false;
    }
    let mut i: usize = 0;
    while i < m
        invariant
            n == s@.len(),
            m == suf@.len(),
            m <= n,
            i <= m,
            forall|j: int| 0 <= j < i ==> s@[n - m + j] == suf@[j],
        decreases m - i,
    {
        if s.get_char(n - m + i) != suf.get_char(i) {
            proof {
                assert(s@.subrange(n - m, n as int)[i as int] == s@[n - m + i]);
            }
            return false;
        }
        i = i + 1;
    }
    proof {
        assert(suf@ =~= s@.subrange(n - m, n as int));
    }
    true
}

/// Case-insensitive (ASCII) suffix test.
pub fn ends_with_ci(s: &str, suf: &str) -> (r: bool)
    ensures
        r == lower_seq(suf@).is_suffix_of(lower_seq(s@)),
{
    let n = s.unicode_len();
    let m = suf.unicode_len();
    if m > n {
        return false;
    }
    let mut i: usize = 0;
    while i < m
        invariant
            n == s@.len(),
            m == suf@.len(),
            m <= n,
            i <= m,
            forall|j: int| 0 <= j < i ==> lower_char(s@[n - m + j]) == lower_char(suf@[j]),
        decreases m - i,
    {
        if char_to_lower(s.get_char(n - m + i)) != char_to_lower(suf.get_char(i)) {
            proof {
                let ls = lower_seq(s@);
                let lf = lower_seq(suf@);
                assert(lf[i as int] == lower_char(suf@[i as int]));
                assert(ls.subrange(n - m, n as int)[i as int] == lower_char(s@[n - m + i]));
            }
            return false;
        }
        i = i + 1;
    }
    proof {
        assert(lower_seq(suf@) =~= lower_seq(s@).subrange(n - m, n as int));
    }
    true
}

/// Exact prefix test.
pub fn starts_with(s: &str, pre: &str) -> (r: bool)
    ensures
        r == pre@.is_prefix_of(s@),
{
    let n = s.unicode_len();
    let m = pre.unicode_len();
    if m > n {
        return false;
    }
    let mut i: usize = 0;
    while i < m
        invariant
            n == s@.len(),
            m == pre@.len(),
            m <= n,
            i <= m,
            forall|j: int| 0 <= j < i ==> s@[j] == pre@[j],
        decreases m - i,
    {
        if s.get_char(i) != pre.get_char(i) {
            proof {
                assert(s@.subrange(0, m as int)[i as int] == s@[i as int]);
            }
            return false;
        }
        i = i + 1;
    }
    proof {
        assert(pre@ =~= s@.subrange(0, m as int));
    }
    true
}

/// Index of the first occurrence of `c` in `p`, if any.
pub fn find_first(p: &str, c: char) -> (r: Option<usize>)
    ensures
        match r {
            Some(j) => j < p@.len() && p@[j as int] == c && forall|k: int|
                0 <= k < j ==> p@[k] != c,
            None => forall|k: int| 0 <= k < p@.len() ==> p@[k] != c,
        },
{
    let n = p.unicode_len();
    let mut i: usize = 0;
    while i < n
        invariant
            n == p@.len(),
            i <= n,
            forall|k: int| 0 <= k < i ==> p@[k] != c,
        decreases n - i,
    {
        if p.get_char(i) == c {
            return Some(i);
        }
        i = i + 1;
    }
    None
}

/// Substring search: does `needle` occur anywhere in `s`?
pub fn contains_str(s: &str, needle: &str) -> (r: bool)
    ensures
        r == seq_contains(s@, needle@),
{
    let n = s.unicode_len();
    let m = needle.unicode_len();
    if m > n {
        proof {
            assert(forall|i: int| !seq_contains_at(s@, needle@, i));
        }
        return false;
    }
    if m == 0 {
        proof {
            assert(s@.subrange(0, 0) =~= needle@);
            assert(seq_contains_at(s@, needle@, 0));
        }
        return true;
    }
    let mut i: usize = 0;
    while i <= n - m
        invariant
            n == s@.len(),
            m == needle@.len(),
            1 <= m <= n,
            i <= n - m + 1,
            forall|j: int| 0 <= j < i ==> !seq_contains_at(s@, needle@, j),
        decreases n - i,
    {
        let w = s.substring_char(i, i + m);
        if str_eq(w, needle) {
            proof {
                assert(seq_contains_at(s@, needle@, i as int));
            }
            return true;
        }
        i = i + 1;
    }
    proof {
        assert(forall|j: int| !seq_contains_at(s@, needle@, j));
    }
    false
}

} // verus!
