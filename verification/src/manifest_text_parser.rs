//! The manifest parser: normalizes the text into lines, parses each line,
//! classifies the playlist, runs the type-aware build, and assembles the
//! playlist value. Also carries the URI-resolution entry points.

use vstd::prelude::*;
use vstd::arithmetic::div_mod::lemma_fundamental_div_mod_converse;
use crate::builder::{build_master_spec, build_media_spec, build_master_playlist,
    build_media_playlist};
use crate::classify::{classify, classify_spec};
use crate::hls_structs::{
    LineKind, LineKindV, ParseError, Playlist, PlaylistType, PlaylistV, Tag, kinds_view,
    playlist_wf,
};
use crate::lines::{lines_of, normalize_newlines, split_into_lines, strs_view};
use crate::resolver::{resolve, resolve_view};
use crate::tag_parser::{parse_line, parse_line_spec, parse_tag_line, parse_tag_spec,
    tag_result_view};

verus! {

/// Parses each line in order into its kind; the first failure aborts.
pub open spec fn parse_lines_spec(lines: Seq<Seq<char>>) -> Result<Seq<LineKindV>, ParseError>
    decreases lines.len(),
{
    if lines.len() == 0 {
        Result::Ok(Seq::empty())
    } else {
        match parse_line_spec(lines[0]) {
            Result::Err(e) => Result::Err(e),
            Result::Ok(k) => match parse_lines_spec(lines.skip(1)) {
                Result::Err(e) => Result::Err(e),
                Result::Ok(r) => Result::Ok(seq![k] + r),
            },
        }
    }
}

/// Parses every line into its kind.
pub fn parse_lines(lines: &Vec<String>) -> (r: Result<Vec<LineKind>, ParseError>)
    ensures
        match r {
            Result::Ok(v) => parse_lines_spec(strs_view(lines@)) == Result::Ok::<
                Seq<LineKindV>,
                ParseError,
            >(kinds_view(v@)),
            Result::Err(e) => parse_lines_spec(strs_view(lines@)) == Result::Err::<
                Seq<LineKindV>,
                ParseError,
            >(e),
        },
{
    let ghost lv = strs_view(lines@);
    let n = lines.len();
    let mut out: Vec<LineKind> = Vec::new();
    let mut i: usize = 0;
    proof {
        assert(lv.skip(0) =~= lv);
        assert(kinds_view(out@) =~= Seq::<LineKindV>::empty());
    }
    while i < n
        invariant
            lv == strs_view(lines@),
            0 <= i <= n,
            n == lines@.len(),
            parse_lines_spec(lv) == (match parse_lines_spec(lv.skip(i as int)) {
                Result::Ok(r) => Result::Ok::<Seq<LineKindV>, ParseError>(kinds_view(out@) + r),
                Result::Err(e) => Result::Err::<Seq<LineKindV>, ParseError>(e),
            }),
        decreases n - i,
    {
        let ghost rem = lv.skip(i as int);
        let line: &String = &lines[i];
        proof {
            assert(rem[0] == line@);
            assert(rem.skip(1) =~= lv.skip(i + 1));
        }
        match parse_line(line.as_str()) {
            Result::Err(e) => {
                return Result::Err(e);
            },
            Result::Ok(k) => {
                let ghost out0 = out@;
                out.push(k);
                proof {
                    assert(kinds_view(out@) =~= kinds_view(out0).push(
                        parse_line_spec(rem[0])->Ok_0,
                    ));
                    if parse_lines_spec(lv.skip(i + 1)) is Ok {
                        let r = parse_lines_spec(lv.skip(i + 1))->Ok_0;
                        assert(kinds_view(out0) + (seq![parse_line_spec(rem[0])->Ok_0] + r)
                            =~= kinds_view(out@) + r);
                    }
                }
            },
        }
        i = i + 1;
    }
    proof {
        assert(lv.skip(n as int) =~= Seq::<Seq<char>>::empty());
        assert(kinds_view(out@) + Seq::<LineKindV>::empty() =~= kinds_view(out@));
    }
    Result::Ok(out)
}

/// What parsing a whole manifest yields: its lines after the signature
/// line, parsed and classified; a media playlist gets its segments, a
/// master playlist its variant tags; the first error aborts the parse.
pub open spec fn parse_playlist_spec(data: Seq<char>, base: Seq<char>) -> Result<
    PlaylistV,
    ParseError,
> {
    let all_lines = lines_of(data);
    let body = if all_lines.len() == 0 {
        all_lines
    } else {
        all_lines.skip(1)
    };
    match parse_lines_spec(body) {
        Result::Err(e) => Result::Err(e),
        Result::Ok(kinds) => match classify_spec(kinds) {
            PlaylistType::Media => match build_media_spec(kinds, base) {
                Result::Err(e) => Result::Err(e),
                Result::Ok(p) => Result::Ok(
                    PlaylistV {
                        absolute_uri: base,
                        playlist_type: PlaylistType::Media,
                        tags: p.0,
                        segments: Option::Some(p.1),
                    },
                ),
            },
            PlaylistType::Master => match build_master_spec(kinds, base) {
                Result::Err(e) => Result::Err(e),
                Result::Ok(tags) => Result::Ok(
                    PlaylistV {
                        absolute_uri: base,
                        playlist_type: PlaylistType::Master,
                        tags,
                        segments: Option::None,
                    },
                ),
            },
        },
    }
}

/// The HLS manifest text parser. It holds no state: every parse is a pure
/// function of its arguments, so separate parses, concurrent or not, are
/// independent.
pub struct ManifestTextParser {}

impl ManifestTextParser {
    pub fn new() -> Self {
        Self {  }
    }

    /// Parses a manifest text against the playlist's own absolute URI.
    /// A missing or malformed `#EXTM3U` signature is a diagnostic, not an
    /// error: the caller may test it with [`crate::lines::validate_header`];
    /// parsing proceeds on the lines after the first either way.
    pub fn parse_playlist(&self, data: String, absolute_playlist_uri: String) -> (r: Result<
        Playlist,
        ParseError,
    >)
        ensures
            match r {
                Result::Ok(p) => parse_playlist_spec(data@, absolute_playlist_uri@)
                    == Result::Ok::<PlaylistV, ParseError>(p@) && playlist_wf(p@),
                Result::Err(e) => parse_playlist_spec(data@, absolute_playlist_uri@)
                    == Result::Err::<PlaylistV, ParseError>(e),
            },
    {
        let normalized = normalize_newlines(data.as_str());
        let mut all_lines = split_into_lines(normalized.as_str());
        let ghost lv = lines_of(data@);
        if all_lines.len() > 0 {
            all_lines.remove(0);
            proof {
                assert(strs_view(all_lines@) =~= lv.skip(1));
            }
        }
        let kinds = match parse_lines(&all_lines) {
            Result::Err(e) => {
                return Result::Err(e);
            },
            Result::Ok(k) => k,
        };
        let t = classify(&kinds);
        match t {
            PlaylistType::Media => match build_media_playlist(kinds, absolute_playlist_uri.as_str(
            )) {
                Result::Err(e) => Result::Err(e),
                Result::Ok(p) => {
                    let (ptags, segs) = p;
                    let out = Playlist::new(
                        absolute_playlist_uri,
                        PlaylistType::Media,
                        ptags,
                        Option::Some(segs),
                    );
                    Result::Ok(out)
                },
            },
            PlaylistType::Master => match build_master_playlist(
                kinds,
                absolute_playlist_uri.as_str(),
            ) {
                Result::Err(e) => Result::Err(e),
                Result::Ok(tags) => {
                    let out = Playlist::new(
                        absolute_playlist_uri,
                        PlaylistType::Master,
                        tags,
                        Option::None,
                    );
                    Result::Ok(out)
                },
            },
        }
    }

    /// Parses a single `#EXT` line into a tag.
    pub fn parse_tag(line: &str) -> (r: Result<Tag, ParseError>)
        ensures
            tag_result_view(r) == parse_tag_spec(line@),
    {
        parse_tag_line(line)
    }

    /// Resolves one URI reference against the playlist's absolute URI.
    pub fn construct_absolute_uri(parent_absolute_uri: String, uri: String) -> (r: String)
        ensures
            r@ == resolve_view(parent_absolute_uri@, uri@),
    {
        resolve(parent_absolute_uri.as_str(), uri.as_str())
    }

    /// Resolves every reference against every base: one resolved URI per
    /// pair, base-major, reference-minor, in source order.
    pub fn resolve_uris(base_uris: Vec<String>, relative_uris: Vec<String>) -> (r: Vec<String>)
        ensures
            cross_resolved(strs_view(base_uris@), strs_view(relative_uris@), strs_view(r@)),
    {
        let n = base_uris.len();
        let m = relative_uris.len();
        let mut out: Vec<String> = Vec::new();
        let mut i: usize = 0;
        while i < n
            invariant
                0 <= i <= n,
                n == base_uris@.len(),
                m == relative_uris@.len(),
                out@.len() == i * m,
                forall|k: int|
                    0 <= k < out@.len() ==> #[trigger] out@[k]@ == resolve_view(
                        base_uris@[k / (m as int)]@,
                        relative_uris@[k % (m as int)]@,
                    ),
            decreases n - i,
        {
            let mut j: usize = 0;
            while j < m
                invariant
                    0 <= i < n,
                    0 <= j <= m,
                    n == base_uris@.len(),
                    m == relative_uris@.len(),
                    out@.len() == i * m + j,
                    forall|k: int|
                        0 <= k < out@.len() ==> #[trigger] out@[k]@ == resolve_view(
                            base_uris@[k / (m as int)]@,
                            relative_uris@[k % (m as int)]@,
                        ),
                decreases m - j,
            {
                let s = resolve(base_uris[i].as_str(), relative_uris[j].as_str());
                proof {
                    lemma_fundamental_div_mod_converse(
                        i * (m as int) + j,
                        m as int,
                        i as int,
                        j as int,
                    );
                }
                out.push(s);
                j = j + 1;
            }
            proof {
                assert(i * m + m == (i + 1) * m) by (nonlinear_arith);
            }
            i = i + 1;
        }
        proof {
            assert forall|b: int, c: int|
                0 <= b < base_uris@.len() && 0 <= c < relative_uris@.len() implies strs_view(out@)[b
                * relative_uris@.len() + c] == #[trigger] resolve_view(
                strs_view(base_uris@)[b],
                strs_view(relative_uris@)[c],
            ) by {
                let mi = m as int;
                assert(0 <= b * mi + c < n * mi) by (nonlinear_arith)
                    requires
                        0 <= b < n as int,
                        0 <= c < mi,
                ;
                lemma_fundamental_div_mod_converse(b * mi + c, mi, b, c);
            }
        }
        out
    }
}

/// `out` is the cross product of resolutions: one entry per base and
/// reference pair, base-major, reference-minor, each the resolution of
/// that reference against that base.
pub open spec fn cross_resolved(
    bases: Seq<Seq<char>>,
    refs: Seq<Seq<char>>,
    out: Seq<Seq<char>>,
) -> bool {
    out.len() == bases.len() * refs.len() && (forall|b: int, c: int|
        0 <= b < bases.len() && 0 <= c < refs.len() ==> out[b * refs.len() + c]
            == #[trigger] resolve_view(bases[b], refs[c]))
}

} // verus!
