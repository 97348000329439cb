//! Character-level text utilities shared by the manifest parser: first-index
//! search, prefix tests, string equality, whitespace trimming, newline
//! normalization and line splitting, each with a sequence-level model.

use vstd::prelude::*;

verus! {

/// Whitespace characters recognized by trimming.
pub open spec fn is_wsp(c: char) -> bool {
    c == ' ' || c == '\t' || c == '\r' || c == '\n'
}

/// Index of the first occurrence of `c` in `s`, or `s.len()` if absent.
pub open spec fn find_char(s: Seq<char>, c: char) -> int
    decreases s.len(),
{
    if s.len() == 0 {
        0
    } else if s[0] == c {
        0
    } else {
        1 + find_char(s.drop_first(), c)
    }
}

pub proof fn lemma_find_char(s: Seq<char>, c: char)
    ensures
        0 <= find_char(s, c) <= s.len(),
        forall|j: int| 0 <= j < find_char(s, c) ==> s[j] != c,
        find_char(s, c) < s.len() ==> s[find_char(s, c)] == c,
    decreases s.len(),
{
    if s.len() > 0 && s[0] != c {
        lemma_find_char(s.drop_first(), c);
        assert forall|j: int| 0 <= j < find_char(s, c) implies s[j] != c by {
            if j > 0 {
                assert(s.drop_first()[j - 1] == s[j]);
            }
        }
    }
}

pub proof fn lemma_find_char_unique(s: Seq<char>, c: char, r: int)
    requires
        0 <= r <= s.len(),
        forall|j: int| 0 <= j < r ==> s[j] != c,
        r < s.len() ==> s[r] == c,
    ensures
        r == find_char(s, c),
    decreases s.len(),
{
    if s.len() > 0 && s[0] != c {
        lemma_find_char_unique(s.drop_first(), c, r - 1);
    }
}

/// First index of `c` in `s`, or the character length of `s` if absent.
pub fn index_of(s: &str, c: char) -> (r: usize)
    ensures
        r == find_char(s@, c),
{
    let n = s.unicode_len();
    let mut i: usize = 0;
    while i < n
        invariant
            0 <= i <= n,
            n == s@.len(),
            forall|j: int| 0 <= j < i ==> s@[j] != c,
        decreases n - i,
    {
        if s.get_char(i) == c {
            proof {
                lemma_find_char_unique(s@, c, i as int);
            }
            return i;
        }
        i = i + 1;
    }
    proof {
        lemma_find_char_unique(s@, c, n as int);
    }
    n
}

/// Whether `p` is a prefix of `s`, comparing character by character.
pub fn has_prefix(s: &str, p: &str) -> (r: bool)
    ensures
        r == p@.is_prefix_of(s@),
{
    let np = p.unicode_len();
    let ns = s.unicode_len();
    if np > ns {
        assert(!p@.is_prefix_of(s@));
        return false;
    }
    let mut i: usize = 0;
    while i < np
        invariant
            0 <= i <= np,
            np == p@.len(),
            ns == s@.len(),
            np <= ns,
            forall|j: int| 0 <= j < i ==> s@[j] == p@[j],
        decreases np - i,
    {
        if s.get_char(i) != p.get_char(i) {
            assert(!p@.is_prefix_of(s@));
            return false;
        }
        i = i + 1;
    }
    assert(p@ =~= s@.subrange(0, np as int));
    true
}

/// Whether two string slices hold the same characters.
pub fn str_eq(a: &str, b: &str) -> (r: bool)
    ensures
        r == (a@ == b@),
{
    let na = a.unicode_len();
    let nb = b.unicode_len();
    if na != nb {
        return false;
    }
    let mut i: usize = 0;
    while i < na
        invariant
            0 <= i <= na,
            na == a@.len(),
            na == b@.len(),
            forall|j: int| 0 <= j < i ==> a@[j] == b@[j],
        decreases na - i,
    {
        if a.get_char(i) != b.get_char(i) {
            return false;
        }
        i = i + 1;
    }
    assert(a@ =~= b@);
    true
}

/// Number of leading whitespace characters of `s`.
pub open spec fn ws_prefix_len(s: Seq<char>) -> int
    decreases s.len(),
{
    if s.len() == 0 {
        0
    } else if !is_wsp(s[0]) {
        0
    } else {
        1 + ws_prefix_len(s.drop_first())
    }
}

/// Index just past the last non-whitespace character of `s`, or 0 if `s` is
/// all whitespace.
pub open spec fn ws_suffix_start(s: Seq<char>) -> int
    decreases s.len(),
{
    if s.len() == 0 {
        0
    } else if !is_wsp(s.last()) {
        s.len() as int
    } else {
        ws_suffix_start(s.drop_last())
    }
}

/// `s` with leading and trailing whitespace removed.
pub open spec fn trim_view(s: Seq<char>) -> Seq<char> {
    let a = ws_prefix_len(s);
    let b = ws_suffix_start(s);
    if a <= b {
        s.subrange(a, b)
    } else {
        Seq::empty()
    }
}

pub proof fn lemma_ws_prefix_len_unique(s: Seq<char>, r: int)
    requires
        0 <= r <= s.len(),
        forall|j: int| 0 <= j < r ==> is_wsp(s[j]),
        r < s.len() ==> !is_wsp(s[r]),
    ensures
        r == ws_prefix_len(s),
    decreases s.len(),
{
    if s.len() > 0 && is_wsp(s[0]) {
        lemma_ws_prefix_len_unique(s.drop_first(), r - 1);
    }
}

pub proof fn lemma_ws_suffix_start_unique(s: Seq<char>, r: int)
    requires
        0 <= r <= s.len(),
        forall|j: int| r <= j < s.len() ==> is_wsp(s[j]),
        r > 0 ==> !is_wsp(s[r - 1]),
    ensures
        r == ws_suffix_start(s),
    decreases s.len(),
{
    if s.len() > 0 && is_wsp(s.last()) {
        assert forall|j: int| r <= j < s.drop_last().len() implies is_wsp(s.drop_last()[j]) by {
            assert(s.drop_last()[j] == s[j]);
        }
        lemma_ws_suffix_start_unique(s.drop_last(), r);
    }
}

fn is_wsp_char(c: char) -> (r: bool)
    ensures
        r == is_wsp(c),
{
    c == ' ' || c == '\t' || c == '\r' || c == '\n'
}

/// `s` with leading and trailing whitespace removed.
pub fn trim(s: &str) -> (r: &str)
    ensures
        r@ == trim_view(s@),
{
    let n = s.unicode_len();
    let mut a: usize = 0;
    while a < n && is_wsp_char(s.get_char(a))
        invariant
            0 <= a <= n,
            n == s@.len(),
            forall|j: int| 0 <= j < a ==> is_wsp(s@[j]),
        decreases n - a,
    {
        a = a + 1;
    }
    proof {
        lemma_ws_prefix_len_unique(s@, a as int);
    }
    if a == n {
        proof {
            lemma_ws_suffix_start_unique(s@, 0);
        }
        let r = s.substring_char(0, 0);
        assert(r@ =~= trim_view(s@));
        return r;
    }
    let mut b: usize = n;
    while is_wsp_char(s.get_char(b - 1))
        invariant
            a < b <= n,
            a < n,
            n == s@.len(),
            !is_wsp(s@[a as int]),
            forall|j: int| b <= j < n ==> is_wsp(s@[j]),
        decreases b,
    {
        b = b - 1;
    }
    proof {
        lemma_ws_suffix_start_unique(s@, b as int);
    }
    s.substring_char(a, b)
}

} // verus!
