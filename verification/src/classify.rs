//! The playlist-type classifier: a read-only scan over the parsed lines
//! that decides master against media before any structure is built.

use vstd::prelude::*;
use crate::hls_structs::{LineKind, LineKindV, PlaylistType, kinds_view};
use crate::text::str_eq;

verus! {

/// The fixed set of tag names that appear only in media playlists.
pub open spec fn is_media_tag(n: Seq<char>) -> bool {
    n == "EXT-X-TARGETDURATION"@ || n == "EXT-X-MEDIA-SEQUENCE"@ || n
        == "EXT-X-DISCONTINUITY-SEQUENCE"@ || n == "EXT-X-PLAYLIST-TYPE"@ || n == "EXT-X-MAP"@ || n
        == "EXT-X-I-FRAMES-ONLY"@ || n == "EXT-X-ENDLIST"@
}

/// The fixed set of tag names scoped to a single segment.
pub open spec fn is_segment_tag(n: Seq<char>) -> bool {
    n == "EXTINF"@ || n == "EXT-X-BYTERANGE"@ || n == "EXT-X-DISCONTINUITY"@ || n
        == "EXT-X-PROGRAM-DATE-TIME"@ || n == "EXT-X-KEY"@ || n == "EXT-X-DATERANGE"@
}

/// The variant-stream tag, whose following line names a child playlist.
pub open spec fn is_variant_tag(n: Seq<char>) -> bool {
    n == "EXT-X-STREAM-INF"@
}

/// Tests a tag name against the media-only set.
pub fn is_media_tag_name(n: &str) -> (r: bool)
    ensures
        r == is_media_tag(n@),
{
    str_eq(n, "EXT-X-TARGETDURATION") || str_eq(n, "EXT-X-MEDIA-SEQUENCE") || str_eq(
        n,
        "EXT-X-DISCONTINUITY-SEQUENCE",
    ) || str_eq(n, "EXT-X-PLAYLIST-TYPE") || str_eq(n, "EXT-X-MAP") || str_eq(
        n,
        "EXT-X-I-FRAMES-ONLY",
    ) || str_eq(n, "EXT-X-ENDLIST")
}

/// Tests a tag name against the segment-scoped set.
pub fn is_segment_tag_name(n: &str) -> (r: bool)
    ensures
        r == is_segment_tag(n@),
{
    str_eq(n, "EXTINF") || str_eq(n, "EXT-X-BYTERANGE") || str_eq(n, "EXT-X-DISCONTINUITY")
        || str_eq(n, "EXT-X-PROGRAM-DATE-TIME") || str_eq(n, "EXT-X-KEY") || str_eq(
        n,
        "EXT-X-DATERANGE",
    )
}

/// Tests a tag name against the variant-stream tag.
pub fn is_variant_tag_name(n: &str) -> (r: bool)
    ensures
        r == is_variant_tag(n@),
{
    str_eq(n, "EXT-X-STREAM-INF")
}

/// The classifying scan: the first media-only tag decides media; a
/// variant-stream tag makes the scan skip the next non-comment line (its
/// companion URI); a scan that exhausts the lines decides master. `skip`
/// says whether the next non-comment line is still to be skipped.
pub open spec fn classify_rec(kinds: Seq<LineKindV>, skip: bool) -> PlaylistType
    decreases kinds.len(),
{
    if kinds.len() == 0 {
        PlaylistType::Master
    } else {
        let rest = kinds.skip(1);
        match kinds[0] {
            LineKindV::Comment => classify_rec(rest, skip),
            LineKindV::Tag(t) => if skip {
                classify_rec(rest, false)
            } else if is_media_tag(t.name) {
                PlaylistType::Media
            } else if is_variant_tag(t.name) {
                classify_rec(rest, true)
            } else {
                classify_rec(rest, false)
            },
            LineKindV::Uri(_) => classify_rec(rest, false),
        }
    }
}

/// What the classifier decides for a line sequence.
pub open spec fn classify_spec(kinds: Seq<LineKindV>) -> PlaylistType {
    classify_rec(kinds, false)
}

/// Decides master against media by a read-only scan of the parsed lines.
pub fn classify(kinds: &Vec<LineKind>) -> (r: PlaylistType)
    ensures
        r == classify_spec(kinds_view(kinds@)),
{
    let n = kinds.len();
    let mut i: usize = 0;
    let mut skip: bool = false;
    proof {
        assert(kinds_view(kinds@).skip(0) =~= kinds_view(kinds@));
    }
    while i < n
        invariant
            0 <= i <= n,
            n == kinds@.len(),
            classify_spec(kinds_view(kinds@)) == classify_rec(
                kinds_view(kinds@).skip(i as int),
                skip,
            ),
        decreases n - i,
    {
        let ghost rem = kinds_view(kinds@).skip(i as int);
        proof {
            assert(rem[0] == kinds@[i as int]@);
            assert(rem.skip(1) =~= kinds_view(kinds@).skip(i + 1));
        }
        match &kinds[i] {
            LineKind::Comment => {},
            LineKind::Tag(t) => {
                if skip {
                    skip = false;
                } else if is_media_tag_name(t.name.as_str()) {
                    return PlaylistType::Media;
                } else if is_variant_tag_name(t.name.as_str()) {
                    skip = true;
                } else {
                    skip = false;
                }
            },
            LineKind::Uri(_) => {
                skip = false;
            },
        }
        i = i + 1;
    }
    proof {
        assert(kinds_view(kinds@).skip(n as int) =~= Seq::<LineKindV>::empty());
    }
    PlaylistType::Master
}

} // verus!
