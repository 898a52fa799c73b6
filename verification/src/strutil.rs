//! Verified string helpers shared by the grammar drivers and the manifest
//! extractor: token-length computation, trimming, equality, prefix, suffix
//! and substring search over `&str` values viewed as character sequences.

use vstd::prelude::*;

use crate::walker::{is_sep, is_sep_char, trim, ws_len, ws_len_back, lemma_ws_len_char,
    lemma_ws_len_back_char, lemma_ws_len_props};

verus! {

/// Length of the maximal run of non-separator characters at the front of `s`.
pub open spec fn word_len(s: Seq<char>) -> nat
    decreases s.len(),
{
    if s.len() > 0 && !is_sep(s[0]) {
        (1 + word_len(s.skip(1))) as nat
    } else {
        0
    }
}

pub proof fn lemma_word_len_char(s: Seq<char>, i: nat)
    requires
        i <= s.len(),
        forall|j: int| 0 <= j < i ==> !is_sep(s[j]),
        i == s.len() || is_sep(s[i as int]),
    ensures
        word_len(s) == i,
    decreases i,
{
    if i == 0 {
        if s.len() > 0 && !is_sep(s[0]) {
            assert(false);
        }
    } else {
        assert(!is_sep(s[0]));
        let t = s.skip(1);
        assert forall|j: int| 0 <= j < i - 1 implies !is_sep(t[j]) by {
            assert(t[j] == s[j + 1]);
        }
        if i < s.len() {
            assert(t[i - 1] == s[i as int]);
        }
        lemma_word_len_char(t, (i - 1) as nat);
    }
}

pub proof fn lemma_word_len_props(s: Seq<char>)
    ensures
        word_len(s) <= s.len(),
        forall|j: int| 0 <= j < word_len(s) ==> !is_sep(s[j]),
        word_len(s) < s.len() ==> is_sep(s[word_len(s) as int]),
    decreases s.len(),
{
    if s.len() > 0 && !is_sep(s[0]) {
        lemma_word_len_props(s.skip(1));
        assert forall|j: int| 0 <= j < word_len(s) implies !is_sep(s[j]) by {
            if j > 0 {
                assert(s.skip(1)[j - 1] == s[j]);
            }
        }
    }
}

/// Exact character-for-character equality of two string slices.
pub fn str_eq(a: &str, b: &str) -> (r: bool)
    ensures
        r == (a@ == b@),
{
    let na = a.unicode_len();
    let nb = b.unicode_len();
    if na != nb {
        proof {
            assert(a@ != b@);
        }
        return false;
    }
    let mut i: usize = 0;
    while i < na
        invariant
            0 <= i <= na,
            na == a@.len(),
            na == b@.len(),
            forall|j: int| 0 <= j < i ==> a@[j] == b@[j],
        decreases na - i,
    {
        if a.get_char(i) != b.get_char(i) {
            return false;
        }
        i = i + 1;
    }
    proof {
        assert(a@ =~= b@);
    }
    true
}

/// Executable [`word_len`].
pub fn word_len_str(s: &str) -> (n: usize)
    ensures
        n == word_len(s@),
        n <= s@.len(),
{
    let len = s.unicode_len();
    let mut i: usize = 0;
    while i < len && !is_sep_char(s.get_char(i))
        invariant
            0 <= i <= len,
            len == s@.len(),
            forall|j: int| 0 <= j < i ==> !is_sep(s@[j]),
        decreases len - i,
    {
        i = i + 1;
    }
    proof {
        lemma_word_len_char(s@, i as nat);
    }
    i
}

/// Executable [`ws_len`].
pub fn ws_len_str(s: &str) -> (n: usize)
    ensures
        n == ws_len(s@),
        n <= s@.len(),
{
    let len = s.unicode_len();
    let mut i: usize = 0;
    while i < len && is_sep_char(s.get_char(i))
        invariant
            0 <= i <= len,
            len == s@.len(),
            forall|j: int| 0 <= j < i ==> is_sep(s@[j]),
        decreases len - i,
    {
        i = i + 1;
    }
    proof {
        lemma_ws_len_char(s@, i as nat);
    }
    i
}

/// `s` with leading and trailing separators removed, as an owned string.
pub fn trim_str(s: &str) -> (t: String)
    ensures
        t@ == trim(s@),
{
    let len = s.unicode_len();
    let a = ws_len_str(s);
    if a == len {
        proof {
            assert(trim(s@) =~= Seq::<char>::empty());
            assert(s@.subrange(a as int, a as int) =~= Seq::<char>::empty());
        }
        return s.substring_char(a, a).to_owned();
    }
    let mut e: usize = len;
    while e > a && is_sep_char(s.get_char(e - 1))
        invariant
            a <= e <= len,
            len == s@.len(),
            a == ws_len(s@),
            a < len,
            forall|j: int| e <= j < len ==> is_sep(s@[j]),
        decreases e,
    {
        e = e - 1;
    }
    proof {
        lemma_ws_len_props(s@);
        assert(!is_sep(s@[a as int]));
        assert(e > a);
        assert(!is_sep(s@[e - 1]));
        lemma_ws_len_back_char(s@, e as nat);
    }
    s.substring_char(a, e).to_owned()
}

/// Offset of the first occurrence of `c` in `s` at or after offset `i`.
pub open spec fn find_char_from(s: Seq<char>, c: char, i: nat) -> Option<nat>
    decreases s.len() - i,
{
    if i >= s.len() {
        None
    } else if s[i as int] == c {
        Some(i)
    } else {
        find_char_from(s, c, (i + 1) as nat)
    }
}

pub proof fn lemma_find_char(s: Seq<char>, c: char, i: nat, j: nat)
    requires
        i <= j <= s.len(),
        forall|m: int| i <= m < j ==> s[m] != c,
        j == s.len() || s[j as int] == c,
    ensures
        find_char_from(s, c, i) == if j < s.len() {
            Some(j)
        } else {
            None::<nat>
        },
    decreases j - i,
{
    if i < j {
        lemma_find_char(s, c, (i + 1) as nat, j);
    }
}

pub proof fn lemma_find_char_props(s: Seq<char>, c: char, i: nat)
    requires
        i <= s.len(),
    ensures
        find_char_from(s, c, i) matches Some(j) ==> i <= j < s.len() && s[j as int] == c && forall|
            m: int,
        | i <= m < j ==> s[m] != c,
        find_char_from(s, c, i) is None ==> forall|m: int| i <= m < s.len() ==> s[m] != c,
    decreases s.len() - i,
{
    if i < s.len() && s[i as int] != c {
        lemma_find_char_props(s, c, (i + 1) as nat);
    }
}

/// Executable [`find_char_from`].
pub fn find_char_str(s: &str, c: char, from: usize) -> (r: Option<usize>)
    requires
        from <= s@.len(),
    ensures
        match r {
            Some(j) => find_char_from(s@, c, from as nat) == Some(j as nat),
            None => find_char_from(s@, c, from as nat) is None,
        },
{
    let n = s.unicode_len();
    let mut j: usize = from;
    while j < n && s.get_char(j) != c
        invariant
            from <= j <= n,
            n == s@.len(),
            forall|m: int| from <= m < j ==> s@[m] != c,
        decreases n - j,
    {
        j = j + 1;
    }
    proof {
        lemma_find_char(s@, c, from as nat, j as nat);
    }
    if j < n {
        Some(j)
    } else {
        None
    }
}

/// Whether `p` occurs in `s` starting at offset `i`.
pub open spec fn occurs_at(s: Seq<char>, p: Seq<char>, i: int) -> bool {
    0 <= i && i + p.len() <= s.len() && s.subrange(i, i + p.len()) == p
}

/// Whether `p` occurs anywhere in `s`.
pub open spec fn contains_seq(s: Seq<char>, p: Seq<char>) -> bool {
    exists|i: int| occurs_at(s, p, i)
}

/// Whether `s` begins with `p`.
pub open spec fn starts_with_seq(s: Seq<char>, p: Seq<char>) -> bool {
    p.len() <= s.len() && s.subrange(0, p.len() as int) == p
}

/// Executable prefix test.
pub fn starts_with_str(s: &str, p: &str) -> (r: bool)
    ensures
        r == starts_with_seq(s@, p@),
{
    let n = s.unicode_len();
    let m = p.unicode_len();
    if m > n {
        return false;
    }
    str_eq(s.substring_char(0, m), p)
}

/// Executable substring search.
pub fn contains_str(s: &str, p: &str) -> (r: bool)
    ensures
        r == contains_seq(s@, p@),
{
    let n = s.unicode_len();
    let m = p.unicode_len();
    if m > n {
        proof {
            assert forall|i: int| !occurs_at(s@, p@, i) by {}
        }
        return false;
    }
    if m == 0 {
        proof {
            assert(s@.subrange(0, 0) =~= p@);
            assert(occurs_at(s@, p@, 0));
        }
        return true;
    }
    let mut i: usize = 0;
    while i <= n - m
        invariant
            0 <= i <= n - m + 1,
            1 <= m <= n,
            n == s@.len(),
            m == p@.len(),
            forall|j: int| 0 <= j < i ==> !occurs_at(s@, p@, j),
        decreases n - i,
    {
        if str_eq(s.substring_char(i, i + m), p) {
            proof {
                assert(occurs_at(s@, p@, i as int));
            }
            return true;
        }
        i = i + 1;
    }
    proof {
        assert forall|j: int| !occurs_at(s@, p@, j) by {
            if 0 <= j && j + p@.len() <= s@.len() {
                assert(!occurs_at(s@, p@, j));
            }
        }
    }
    false
}

} // verus!
