//! The URI resolver: splits a URI reference into scheme, authority, path,
//! query and fragment, merges a relative reference against a base URI with
//! the standard dot-segment removal, and recomposes the result byte-exactly.

use vstd::prelude::*;
use crate::text::{find_char, index_of, has_prefix, lemma_find_char, str_eq};

verus! {

/// The five components of a URI reference. Absent and empty components are
/// distinct: `http://h?` carries an empty query, `http://h` none.
#[verifier::ext_equal]
pub struct UriParts {
    pub scheme: Option<Seq<char>>,
    pub authority: Option<Seq<char>>,
    pub path: Seq<char>,
    pub query: Option<Seq<char>>,
    pub fragment: Option<Seq<char>>,
}

pub open spec fn is_alpha(c: char) -> bool {
    ('a' as u32 <= c as u32 && c as u32 <= 'z' as u32) || ('A' as u32 <= c as u32 && c as u32
        <= 'Z' as u32)
}

pub open spec fn is_digit(c: char) -> bool {
    '0' as u32 <= c as u32 && c as u32 <= '9' as u32
}

pub open spec fn is_scheme_char(c: char) -> bool {
    is_alpha(c) || is_digit(c) || c == '+' || c == '-' || c == '.'
}

/// A scheme is non-empty, begins with a letter, and continues with
/// letters, digits, `+`, `-` or `.`.
pub open spec fn valid_scheme(s: Seq<char>) -> bool {
    s.len() > 0 && is_alpha(s[0]) && forall|i: int| 0 <= i < s.len() ==> is_scheme_char(s[i])
}

/// Splits `s` at the first occurrence of `c`: the part before, and, when
/// `c` occurs, the part after it.
pub open spec fn split_at_char(s: Seq<char>, c: char) -> (Seq<char>, Option<Seq<char>>) {
    let j = find_char(s, c);
    if 0 <= j < s.len() {
        (s.subrange(0, j), Option::Some(s.skip(j + 1)))
    } else {
        (s, Option::None)
    }
}

/// Strips a leading scheme: present when a `:` stands before any `/`, `?`
/// or `#` and the text before it is a valid scheme.
pub open spec fn split_scheme(s: Seq<char>) -> (Seq<char>, Option<Seq<char>>) {
    let j = find_char(s, ':');
    if 0 <= j < s.len() && j < find_char(s, '/') && j < find_char(s, '?') && j < find_char(s, '#')
        && valid_scheme(s.subrange(0, j)) {
        (s.skip(j + 1), Option::Some(s.subrange(0, j)))
    } else {
        (s, Option::None)
    }
}

/// Strips a leading authority: present when the text begins `//`, running
/// to the next `/` or the end. Queries and fragments are already removed
/// when this applies.
pub open spec fn split_authority(s: Seq<char>) -> (Option<Seq<char>>, Seq<char>) {
    if "//"@.is_prefix_of(s) {
        let t = s.skip(2);
        let j = find_char(t, '/');
        if 0 <= j < t.len() {
            (Option::Some(t.subrange(0, j)), t.skip(j))
        } else {
            (Option::Some(t), Seq::empty())
        }
    } else {
        (Option::None, s)
    }
}

/// Decomposes a URI reference into its five components.
pub open spec fn parse_uri(s: Seq<char>) -> UriParts {
    let (s1, scheme) = split_scheme(s);
    let (s2, fragment) = split_at_char(s1, '#');
    let (s3, query) = split_at_char(s2, '?');
    let (authority, path) = split_authority(s3);
    UriParts { scheme, authority, path, query, fragment }
}

/// Index of the last occurrence of `c` in `s`, or -1 if absent.
pub open spec fn rfind_char(s: Seq<char>, c: char) -> int
    decreases s.len(),
{
    if s.len() == 0 {
        -1
    } else if s.last() == c {
        s.len() - 1
    } else {
        rfind_char(s.drop_last(), c)
    }
}

pub proof fn lemma_rfind_char(s: Seq<char>, c: char)
    ensures
        -1 <= rfind_char(s, c) < s.len(),
        rfind_char(s, c) >= 0 ==> s[rfind_char(s, c)] == c,
        forall|j: int| rfind_char(s, c) < j < s.len() ==> s[j] != c,
    decreases s.len(),
{
    if s.len() > 0 && s.last() != c {
        lemma_rfind_char(s.drop_last(), c);
        assert forall|j: int| rfind_char(s, c) < j < s.len() implies s[j] != c by {
            if j < s.len() - 1 {
                assert(s.drop_last()[j] == s[j]);
            }
        }
    }
}

pub proof fn lemma_rfind_char_unique(s: Seq<char>, c: char, r: int)
    requires
        -1 <= r < s.len(),
        r >= 0 ==> s[r] == c,
        forall|j: int| r < j < s.len() ==> s[j] != c,
    ensures
        r == rfind_char(s, c),
    decreases s.len(),
{
    if s.len() > 0 {
        if s.last() == c {
            assert(r == s.len() - 1);
        } else {
            assert(r < s.len() - 1);
            assert forall|j: int| r < j < s.drop_last().len() implies s.drop_last()[j] != c by {
                assert(s.drop_last()[j] == s[j]);
            }
            lemma_rfind_char_unique(s.drop_last(), c, r);
        }
    }
}

/// Last occurrence of `c` in `s`, if any.
pub fn rindex_of(s: &str, c: char) -> (r: Option<usize>)
    ensures
        match r {
            Option::Some(j) => j == rfind_char(s@, c),
            Option::None => rfind_char(s@, c) == -1,
        },
{
    let n = s.unicode_len();
    let mut i: usize = n;
    while i > 0
        invariant
            0 <= i <= n,
            n == s@.len(),
            forall|j: int| i <= j < n ==> s@[j] != c,
        decreases i,
    {
        if s.get_char(i - 1) == c {
            proof {
                lemma_rfind_char_unique(s@, c, i - 1);
            }
            return Option::Some(i - 1);
        }
        i = i - 1;
    }
    proof {
        lemma_rfind_char_unique(s@, c, -1);
    }
    Option::None
}

/// Removes the last path segment of `out` together with its preceding `/`.
pub open spec fn pop_last_segment(out: Seq<char>) -> Seq<char> {
    let j = rfind_char(out, '/');
    if j >= 0 {
        out.subrange(0, j)
    } else {
        Seq::empty()
    }
}

fn pop_segment(out: &str) -> (r: String)
    ensures
        r@ == pop_last_segment(out@),
{
    match rindex_of(out, '/') {
        Option::Some(j) => {
            let n = out.unicode_len();
            proof {
                lemma_rfind_char(out@, '/');
            }
            out.substring_char(0, j).to_owned()
        },
        Option::None => String::new(),
    }
}

/// Dot-segment removal over a path: `inp` is the input buffer still to be
/// consumed, `out` the output gathered so far. `.` and `..` segments are
/// interpreted; `..` removes the segment before it.
pub open spec fn rds(inp: Seq<char>, out: Seq<char>) -> Seq<char>
    decreases inp.len(),
{
    if inp.len() == 0 {
        out
    } else if seq!['.', '.', '/'].is_prefix_of(inp) {
        rds(inp.skip(3), out)
    } else if seq!['.', '/'].is_prefix_of(inp) {
        rds(inp.skip(2), out)
    } else if seq!['/', '.', '/'].is_prefix_of(inp) {
        rds(seq!['/'] + inp.skip(3), out)
    } else if inp == seq!['/', '.'] {
        rds(seq!['/'], out)
    } else if seq!['/', '.', '.', '/'].is_prefix_of(inp) {
        rds(seq!['/'] + inp.skip(4), pop_last_segment(out))
    } else if inp == seq!['/', '.', '.'] {
        rds(seq!['/'], pop_last_segment(out))
    } else if inp == seq!['.'] || inp == seq!['.', '.'] {
        out
    } else {
        let j = if inp[0] == '/' {
            1 + find_char(inp.skip(1), '/')
        } else {
            find_char(inp, '/')
        };
        if 1 <= j <= inp.len() {
            rds(inp.skip(j), out + inp.subrange(0, j))
        } else {
            out + inp
        }
    }
}

/// Applies dot-segment removal to the remaining input `inp`, with `out`
/// already emitted.
fn rds_exec(inp: &str, out: String) -> (r: String)
    ensures
        r@ == rds(inp@, out@),
    decreases inp@.len(),
{
    let n = inp.unicode_len();
    proof {
        reveal_strlit("../");
        reveal_strlit("./");
        reveal_strlit("/./");
        reveal_strlit("/.");
        reveal_strlit("/../");
        reveal_strlit("/..");
        reveal_strlit(".");
        reveal_strlit("..");
        reveal_strlit("/");
        assert("../"@ =~= seq!['.', '.', '/']);
        assert("./"@ =~= seq!['.', '/']);
        assert("/./"@ =~= seq!['/', '.', '/']);
        assert("/."@ =~= seq!['/', '.']);
        assert("/../"@ =~= seq!['/', '.', '.', '/']);
        assert("/.."@ =~= seq!['/', '.', '.']);
        assert("."@ =~= seq!['.']);
        assert(".."@ =~= seq!['.', '.']);
        assert("/"@ =~= seq!['/']);
    }
    if n == 0 {
        return out;
    }
    if has_prefix(inp, "../") {
        return rds_exec(inp.substring_char(3, n), out);
    }
    if has_prefix(inp, "./") {
        return rds_exec(inp.substring_char(2, n), out);
    }
    if has_prefix(inp, "/./") {
        let mut t = String::new();
        t.append("/");
        t.append(inp.substring_char(3, n));
        proof {
            assert(t@ =~= seq!['/'] + inp@.skip(3));
        }
        return rds_exec(t.as_str(), out);
    }
    if str_eq(inp, "/.") {
        let mut t = String::new();
        t.append("/");
        proof {
            assert(t@ =~= seq!['/']);
        }
        return rds_exec(t.as_str(), out);
    }
    if has_prefix(inp, "/../") {
        let mut t = String::new();
        t.append("/");
        t.append(inp.substring_char(4, n));
        proof {
            assert(t@ =~= seq!['/'] + inp@.skip(4));
        }
        let popped = pop_segment(out.as_str());
        return rds_exec(t.as_str(), popped);
    }
    if str_eq(inp, "/..") {
        let mut t = String::new();
        t.append("/");
        proof {
            assert(t@ =~= seq!['/']);
        }
        let popped = pop_segment(out.as_str());
        return rds_exec(t.as_str(), popped);
    }
    if str_eq(inp, ".") || str_eq(inp, "..") {
        return out;
    }
    let c0 = inp.get_char(0);
    let j: usize = if c0 == '/' {
        let tail = inp.substring_char(1, n);
        proof {
            assert(tail@ =~= inp@.skip(1));
            lemma_find_char(tail@, '/');
        }
        1 + index_of(tail, '/')
    } else {
        proof {
            lemma_find_char(inp@, '/');
        }
        index_of(inp, '/')
    };
    proof {
        if c0 != '/' {
            lemma_find_char(inp@, '/');
            assert(inp@[find_char(inp@, '/')] == '/' || find_char(inp@, '/') == inp@.len());
        }
    }
    let mut out2 = out;
    out2.append(inp.substring_char(0, j));
    rds_exec(inp.substring_char(j, n), out2)
}

/// Merges a relative path against the base: with an authority and an empty
/// base path the reference hangs off `/`; otherwise it replaces the base
/// path's last segment.
pub open spec fn merge_paths(base: UriParts, rpath: Seq<char>) -> Seq<char> {
    if base.authority is Some && base.path.len() == 0 {
        seq!['/'] + rpath
    } else {
        let j = rfind_char(base.path, '/');
        if j >= 0 {
            base.path.subrange(0, j + 1) + rpath
        } else {
            rpath
        }
    }
}

/// The standard transform of a base and a relative reference: scheme and
/// authority are inherited from the base unless the reference carries its
/// own; the paths are merged with dot-segment removal; query and fragment
/// come from the reference, the base's query surviving only a reference
/// that is empty but for its fragment.
pub open spec fn resolve_parts(b: UriParts, r: UriParts) -> UriParts {
    if r.authority is Some {
        UriParts {
            scheme: b.scheme,
            authority: r.authority,
            path: rds(r.path, Seq::empty()),
            query: r.query,
            fragment: r.fragment,
        }
    } else if r.path.len() == 0 {
        UriParts {
            scheme: b.scheme,
            authority: b.authority,
            path: b.path,
            query: if r.query is Some {
                r.query
            } else {
                b.query
            },
            fragment: r.fragment,
        }
    } else if r.path[0] == '/' {
        UriParts {
            scheme: b.scheme,
            authority: b.authority,
            path: rds(r.path, Seq::empty()),
            query: r.query,
            fragment: r.fragment,
        }
    } else {
        UriParts {
            scheme: b.scheme,
            authority: b.authority,
            path: rds(merge_paths(b, r.path), Seq::empty()),
            query: r.query,
            fragment: r.fragment,
        }
    }
}

/// Reassembles a URI from its components.
pub open spec fn recompose(p: UriParts) -> Seq<char> {
    (match p.scheme {
        Option::Some(s) => s + seq![':'],
        Option::None => Seq::empty(),
    }) + (match p.authority {
        Option::Some(a) => seq!['/', '/'] + a,
        Option::None => Seq::empty(),
    }) + p.path + (match p.query {
        Option::Some(q) => seq!['?'] + q,
        Option::None => Seq::empty(),
    }) + (match p.fragment {
        Option::Some(f) => seq!['#'] + f,
        Option::None => Seq::empty(),
    })
}

/// What resolving `reference` against `base` yields: an absolute reference
/// (one carrying a scheme) is returned unchanged, byte for byte; any other
/// reference is merged against the base and recomposed.
pub open spec fn resolve_view(base: Seq<char>, reference: Seq<char>) -> Seq<char> {
    let rp = parse_uri(reference);
    if rp.scheme is Some {
        reference
    } else {
        recompose(resolve_parts(parse_uri(base), rp))
    }
}

/// View of an optional string.
pub open spec fn opt_view(o: Option<String>) -> Option<Seq<char>> {
    match o {
        Option::Some(s) => Option::Some(s@),
        Option::None => Option::None,
    }
}

/// Exec carrier of the five URI components.
pub struct UriPartsE {
    pub scheme: Option<String>,
    pub authority: Option<String>,
    pub path: String,
    pub query: Option<String>,
    pub fragment: Option<String>,
}

impl View for UriPartsE {
    type V = UriParts;

    open spec fn view(&self) -> UriParts {
        UriParts {
            scheme: opt_view(self.scheme),
            authority: opt_view(self.authority),
            path: self.path@,
            query: opt_view(self.query),
            fragment: opt_view(self.fragment),
        }
    }
}

fn valid_scheme_exec(s: &str) -> (r: bool)
    ensures
        r == valid_scheme(s@),
{
    let n = s.unicode_len();
    if n == 0 {
        return false;
    }
    let c0 = s.get_char(0);
    if !(('a' <= c0 && c0 <= 'z') || ('A' <= c0 && c0 <= 'Z')) {
        return false;
    }
    let mut i: usize = 0;
    while i < n
        invariant
            0 <= i <= n,
            n == s@.len(),
            forall|j: int| 0 <= j < i ==> is_scheme_char(s@[j]),
        decreases n - i,
    {
        let c = s.get_char(i);
        if !(('a' <= c && c <= 'z') || ('A' <= c && c <= 'Z') || ('0' <= c && c <= '9') || c == '+'
            || c == '-' || c == '.') {
            return false;
        }
        i = i + 1;
    }
    true
}

fn split_once_at<'a>(s: &'a str, c: char) -> (r: (&'a str, Option<String>))
    ensures
        r.0@ == split_at_char(s@, c).0,
        opt_view(r.1) == split_at_char(s@, c).1,
{
    let n = s.unicode_len();
    proof {
        lemma_find_char(s@, c);
    }
    let j = index_of(s, c);
    if j < n {
        let before = s.substring_char(0, j);
        let after = s.substring_char(j + 1, n);
        proof {
            assert(after@ =~= s@.skip(j + 1));
        }
        (before, Option::Some(after.to_owned()))
    } else {
        (s, Option::None)
    }
}

/// Decomposes a URI reference into scheme, authority, path, query and
/// fragment.
pub fn parse_uri_parts(s: &str) -> (r: UriPartsE)
    ensures
        r@ == parse_uri(s@),
{
    let n = s.unicode_len();
    proof {
        lemma_find_char(s@, ':');
    }
    let jc = index_of(s, ':');
    let js = index_of(s, '/');
    let jq = index_of(s, '?');
    let jf = index_of(s, '#');
    let mut scheme: Option<String> = Option::None;
    let rest: &str = if jc < n && jc < js && jc < jq && jc < jf && valid_scheme_exec(
        s.substring_char(0, jc),
    ) {
        scheme = Option::Some(s.substring_char(0, jc).to_owned());
        let after = s.substring_char(jc + 1, n);
        proof {
            assert(after@ =~= s@.skip(jc + 1));
        }
        after
    } else {
        s
    };
    assert(rest@ == split_scheme(s@).0 && opt_view(scheme) == split_scheme(s@).1);
    let (rest2, fragment) = split_once_at(rest, '#');
    let (rest3, query) = split_once_at(rest2, '?');
    let rn = rest3.unicode_len();
    let mut authority: Option<String> = Option::None;
    let path: &str = if has_prefix(rest3, "//") {
        proof {
            reveal_strlit("//");
        }
        let t = rest3.substring_char(2, rn);
        proof {
            assert(t@ =~= rest3@.skip(2));
            lemma_find_char(t@, '/');
        }
        let tn = t.unicode_len();
        let j = index_of(t, '/');
        if j < tn {
            authority = Option::Some(t.substring_char(0, j).to_owned());
            let p = t.substring_char(j, tn);
            proof {
                assert(p@ =~= t@.skip(j as int));
            }
            p
        } else {
            authority = Option::Some(t.to_owned());
            let p = t.substring_char(0, 0);
            proof {
                assert(p@ =~= Seq::<char>::empty());
            }
            p
        }
    } else {
        rest3
    };
    assert(opt_view(authority) == split_authority(rest3@).0 && path@ == split_authority(rest3@).1);
    let r = UriPartsE {
        scheme,
        authority,
        path: path.to_owned(),
        query,
        fragment,
    };
    proof {
        assert(r@ =~= parse_uri(s@));
    }
    r
}

fn recompose_exec(p: &UriPartsE) -> (r: String)
    ensures
        r@ == recompose(p@),
{
    let mut out = String::new();
    match &p.scheme {
        Option::Some(s) => {
            out.append(s.as_str());
            out.append(":");
            proof {
                reveal_strlit(":");
            }
        },
        Option::None => {},
    }
    match &p.authority {
        Option::Some(a) => {
            out.append("//");
            out.append(a.as_str());
            proof {
                reveal_strlit("//");
            }
        },
        Option::None => {},
    }
    out.append(p.path.as_str());
    match &p.query {
        Option::Some(q) => {
            out.append("?");
            out.append(q.as_str());
            proof {
                reveal_strlit("?");
            }
        },
        Option::None => {},
    }
    match &p.fragment {
        Option::Some(f) => {
            out.append("#");
            out.append(f.as_str());
            proof {
                reveal_strlit("#");
            }
        },
        Option::None => {},
    }
    proof {
        assert(out@ =~= recompose(p@));
    }
    out
}

/// Resolves one URI reference against one base URI. An absolute reference
/// is returned unchanged; otherwise the reference is merged against the
/// base by the standard rules and recomposed, byte-exactly.
pub fn resolve(base: &str, reference: &str) -> (r: String)
    ensures
        r@ == resolve_view(base@, reference@),
{
    let rp = parse_uri_parts(reference);
    if rp.scheme.is_some() {
        return reference.to_owned();
    }
    let bp = parse_uri_parts(base);
    let ghost bv = bp@;
    let ghost rv = rp@;
    let out: UriPartsE = if rp.authority.is_some() {
        let path = rds_exec(rp.path.as_str(), String::new());
        UriPartsE {
            scheme: bp.scheme,
            authority: rp.authority,
            path,
            query: rp.query,
            fragment: rp.fragment,
        }
    } else if rp.path.as_str().unicode_len() == 0 {
        let query: Option<String> = if rp.query.is_some() {
            rp.query
        } else {
            bp.query
        };
        UriPartsE {
            scheme: bp.scheme,
            authority: bp.authority,
            path: bp.path,
            query,
            fragment: rp.fragment,
        }
    } else if rp.path.as_str().get_char(0) == '/' {
        let path = rds_exec(rp.path.as_str(), String::new());
        UriPartsE {
            scheme: bp.scheme,
            authority: bp.authority,
            path,
            query: rp.query,
            fragment: rp.fragment,
        }
    } else {
        let merged: String = if bp.authority.is_some() && bp.path.as_str().unicode_len() == 0 {
            let mut m = String::new();
            m.append("/");
            m.append(rp.path.as_str());
            proof {
                reveal_strlit("/");
                assert(m@ =~= merge_paths(bv, rv.path));
            }
            m
        } else {
            proof {
                lemma_rfind_char(bp.path@, '/');
            }
            let bn = bp.path.as_str().unicode_len();
            match rindex_of(bp.path.as_str(), '/') {
                Option::Some(j) => {
                    assert(j < bn);
                    let mut m = bp.path.as_str().substring_char(0, j + 1).to_owned();
                    m.append(rp.path.as_str());
                    assert(m@ == merge_paths(bv, rv.path));
                    m
                },
                Option::None => {
                    let m = rp.path.clone();
                    assert(m@ == merge_paths(bv, rv.path));
                    m
                },
            }
        };
        let path = rds_exec(merged.as_str(), String::new());
        UriPartsE {
            scheme: bp.scheme,
            authority: bp.authority,
            path,
            query: rp.query,
            fragment: rp.fragment,
        }
    };
    proof {
        assert(out@ =~= resolve_parts(bv, rv));
    }
    recompose_exec(&out)
}

/// The cross product of resolutions: for each base in order, each
/// reference in order, one resolved URI.
pub open spec fn resolve_all_view(bases: Seq<Seq<char>>, refs: Seq<Seq<char>>) -> Seq<Seq<char>> {
    Seq::new(bases.len() * refs.len(), |k: int| resolve_view(bases[k / refs.len() as int], refs[k % refs.len() as int]))
}

} // verus!
