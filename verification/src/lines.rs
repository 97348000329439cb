//! The line normalizer: newline normalization, splitting the manifest text
//! into trimmed non-blank lines, and the signature-line check.

use vstd::prelude::*;
use crate::hls_structs::ParseError;
use crate::text::{find_char, index_of, lemma_find_char, trim, trim_view, has_prefix};

verus! {

/// `s` with every CRLF pair and every bare CR replaced by a single LF.
pub open spec fn normalize_nl(s: Seq<char>) -> Seq<char>
    decreases s.len(),
{
    if s.len() == 0 {
        Seq::empty()
    } else if s[0] == '\r' {
        if s.len() >= 2 && s[1] == '\n' {
            seq!['\n'] + normalize_nl(s.skip(2))
        } else {
            seq!['\n'] + normalize_nl(s.skip(1))
        }
    } else {
        seq![s[0]] + normalize_nl(s.skip(1))
    }
}

/// The trimmed lines of `s`, split at LF, with blank lines dropped.
pub open spec fn split_lines(s: Seq<char>) -> Seq<Seq<char>>
    decreases s.len(),
{
    let j = find_char(s, '\n');
    if 0 <= j < s.len() {
        let head = trim_view(s.subrange(0, j));
        let rest = split_lines(s.skip(j + 1));
        if head.len() == 0 {
            rest
        } else {
            seq![head] + rest
        }
    } else {
        if trim_view(s).len() == 0 {
            Seq::empty()
        } else {
            seq![trim_view(s)]
        }
    }
}

/// View of a sequence of strings.
pub open spec fn strs_view(v: Seq<String>) -> Seq<Seq<char>> {
    v.map_values(|x: String| x@)
}

/// The ordered non-blank lines of the manifest text `s`, after newline
/// normalization, each trimmed of leading and trailing whitespace.
pub open spec fn lines_of(s: Seq<char>) -> Seq<Seq<char>> {
    split_lines(normalize_nl(s))
}

/// Replaces CRLF and bare CR by LF.
pub fn normalize_newlines(s: &str) -> (r: String)
    ensures
        r@ == normalize_nl(s@),
{
    let n = s.unicode_len();
    let mut out = String::new();
    let mut i: usize = 0;
    proof {
        assert(s@.skip(0) =~= s@);
        assert(out@ + normalize_nl(s@) =~= normalize_nl(s@));
    }
    while i < n
        invariant
            0 <= i <= n,
            n == s@.len(),
            normalize_nl(s@) == out@ + normalize_nl(s@.skip(i as int)),
        decreases n - i,
    {
        let ghost rem = s@.skip(i as int);
        assert(rem[0] == s@[i as int]);
        let c = s.get_char(i);
        if c == '\r' {
            if i + 1 < n && s.get_char(i + 1) == '\n' {
                proof {
                    assert(rem[1] == s@[i + 1]);
                    assert(rem.skip(2) =~= s@.skip(i + 2));
                }
                out.append("\n");
                proof {
                    reveal_strlit("\n");
                    assert(out@ + normalize_nl(s@.skip(i + 2)) =~= normalize_nl(s@));
                }
                i = i + 2;
            } else {
                proof {
                    assert(rem.skip(1) =~= s@.skip(i + 1));
                    if rem.len() >= 2 {
                        assert(rem[1] == s@[i + 1]);
                    }
                }
                out.append("\n");
                proof {
                    reveal_strlit("\n");
                    assert(out@ + normalize_nl(s@.skip(i + 1)) =~= normalize_nl(s@));
                }
                i = i + 1;
            }
        } else {
            let piece = s.substring_char(i, i + 1);
            proof {
                assert(piece@ =~= seq![s@[i as int]]);
                assert(rem.skip(1) =~= s@.skip(i + 1));
            }
            out.append(piece);
            proof {
                assert(out@ + normalize_nl(s@.skip(i + 1)) =~= normalize_nl(s@));
            }
            i = i + 1;
        }
    }
    proof {
        assert(s@.skip(n as int) =~= Seq::<char>::empty());
        assert(out@ + normalize_nl(s@.skip(n as int)) =~= out@);
    }
    out
}

/// Splits `s` at LF into trimmed lines, dropping blank lines.
pub fn split_into_lines(s: &str) -> (r: Vec<String>)
    ensures
        strs_view(r@) == split_lines(s@),
{
    let n = s.unicode_len();
    let mut out: Vec<String> = Vec::new();
    let mut i: usize = 0;
    proof {
        assert(s@.skip(0) =~= s@);
        assert(strs_view(out@) + split_lines(s@) =~= split_lines(s@));
    }
    while i < n
        invariant
            0 <= i <= n,
            n == s@.len(),
            split_lines(s@) == strs_view(out@) + split_lines(s@.skip(i as int)),
        decreases n - i,
    {
        let ghost rem = s@.skip(i as int);
        let rest = s.substring_char(i, n);
        proof {
            assert(rest@ =~= rem);
            lemma_find_char(rem, '\n');
        }
        let j = index_of(rest, '\n');
        let rn = rest.unicode_len();
        if j < rn {
            let line = trim(s.substring_char(i, i + j));
            proof {
                assert(s@.subrange(i as int, i + j) =~= rem.subrange(0, j as int));
                assert(rem.skip(j + 1) =~= s@.skip(i + j + 1));
            }
            if line.unicode_len() > 0 {
                let ghost out0 = out@;
                out.push(line.to_owned());
                proof {
                    assert(strs_view(out@) =~= strs_view(out0).push(line@));
                    assert(strs_view(out0).push(line@) + split_lines(s@.skip(i + j + 1)) =~= strs_view(
                        out0) + (seq![line@] + split_lines(s@.skip(i + j + 1))));
                }
            }
            i = i + j + 1;
        } else {
            let line = trim(rest);
            if line.unicode_len() > 0 {
                let ghost out0 = out@;
                out.push(line.to_owned());
                proof {
                    assert(strs_view(out@) =~= strs_view(out0).push(line@));
                    assert(strs_view(out0).push(line@) =~= strs_view(out0) + seq![line@]);
                }
            }
            i = n;
            proof {
                assert(s@.skip(n as int) =~= Seq::<char>::empty());
                assert(strs_view(out@) + split_lines(s@.skip(n as int)) =~= strs_view(out@));
            }
        }
    }
    proof {
        assert(s@.skip(i as int) =~= Seq::<char>::empty());
        assert(strs_view(out@) + split_lines(s@.skip(i as int)) =~= strs_view(out@));
    }
    out
}

/// Whether a line is the `#EXTM3U` signature, alone or followed by a space
/// or tab.
pub open spec fn header_ok(l: Seq<char>) -> bool {
    "#EXTM3U"@.is_prefix_of(l) && (l.len() == 7 || l[7] == ' ' || l[7] == '\t')
}

/// The signature check on a line sequence: the first line must be the
/// `#EXTM3U` signature.
pub open spec fn header_check(lines: Seq<Seq<char>>) -> Result<(), ParseError> {
    if lines.len() > 0 && header_ok(lines[0]) {
        Result::Ok(())
    } else {
        Result::Err(ParseError::MalformedHeader)
    }
}

/// Checks the manifest's signature line. A failure is a diagnostic only:
/// parsing proceeds on the remaining lines regardless.
pub fn validate_header(lines: &Vec<String>) -> (r: Result<(), ParseError>)
    ensures
        r == header_check(strs_view(lines@)),
{
    if lines.len() == 0 {
        return Result::Err(ParseError::MalformedHeader);
    }
    let first: &String = &lines[0];
    assert(first@ == strs_view(lines@)[0]);
    if !has_prefix(first.as_str(), "#EXTM3U") {
        return Result::Err(ParseError::MalformedHeader);
    }
    proof {
        reveal_strlit("#EXTM3U");
    }
    let n = first.as_str().unicode_len();
    if n == 7 {
        Result::Ok(())
    } else {
        let c = first.as_str().get_char(7);
        if c == ' ' || c == '\t' {
            Result::Ok(())
        } else {
            Result::Err(ParseError::MalformedHeader)
        }
    }
}

} // verus!
