//! The segment and variant builder: the second, type-aware pass over the
//! parsed lines. For a media playlist it groups segment-scoped tags with the
//! URI line that follows them; for a master playlist it attaches each
//! variant-stream tag's companion URI as a synthetic attribute.

use vstd::prelude::*;
use crate::classify::{is_segment_tag, is_segment_tag_name, is_variant_tag, is_variant_tag_name};
use crate::hls_structs::{
    Attribute, AttributeV, LineKind, LineKindV, ParseError, Segment, SegmentV, Tag, TagBodyV, TagV,
    kinds_view, segs_view, tags_view,
};
use crate::resolver::{resolve, resolve_view};

verus! {

/// The media build: segment-scoped tags gather in `acc` until a URI line
/// closes the segment; any other tag is playlist-scoped; a variant-stream
/// tag is a structural error. Trailing accumulated tags without a closing
/// URI line are dropped.
pub open spec fn build_media_rec(
    kinds: Seq<LineKindV>,
    base: Seq<char>,
    ptags: Seq<TagV>,
    acc: Seq<TagV>,
    segs: Seq<SegmentV>,
) -> Result<(Seq<TagV>, Seq<SegmentV>), ParseError>
    decreases kinds.len(),
{
    if kinds.len() == 0 {
        Result::Ok((ptags, segs))
    } else {
        let rest = kinds.skip(1);
        match kinds[0] {
            LineKindV::Comment => build_media_rec(rest, base, ptags, acc, segs),
            LineKindV::Tag(t) => if is_variant_tag(t.name) {
                Result::Err(ParseError::StructuralError)
            } else if is_segment_tag(t.name) {
                build_media_rec(rest, base, ptags, acc.push(t), segs)
            } else {
                build_media_rec(rest, base, ptags.push(t), acc, segs)
            },
            LineKindV::Uri(u) => build_media_rec(
                rest,
                base,
                ptags,
                Seq::empty(),
                segs.push(SegmentV { absolute_uri: resolve_view(base, u), tags: acc }),
            ),
        }
    }
}

/// What the media build yields for a line sequence: the playlist-scoped
/// tags and the segments, or the structural error.
pub open spec fn build_media_spec(kinds: Seq<LineKindV>, base: Seq<char>) -> Result<
    (Seq<TagV>, Seq<SegmentV>),
    ParseError,
> {
    build_media_rec(kinds, base, Seq::empty(), Seq::empty(), Seq::empty())
}

/// A tag with `uri` appended as a synthetic `URI` attribute.
pub open spec fn attach_uri(t: TagV, uri: Seq<char>) -> TagV {
    TagV {
        name: t.name,
        body: match t.body {
            TagBodyV::Attributes(l) => TagBodyV::Attributes(
                l.push(AttributeV { name: "URI"@, value: uri }),
            ),
            _ => TagBodyV::Attributes(seq![AttributeV { name: "URI"@, value: uri }]),
        },
    }
}

/// The master build: a variant-stream tag expects the next non-comment
/// line to be its companion URI, which is resolved and attached to it;
/// a skipped line that is itself a tag is consumed without effect; a
/// segment-scoped tag or an orphan URI is a structural error; input that
/// ends while a companion URI is still owed is a truncated manifest.
pub open spec fn build_master_rec(
    kinds: Seq<LineKindV>,
    base: Seq<char>,
    tags: Seq<TagV>,
    skip: bool,
) -> Result<Seq<TagV>, ParseError>
    decreases kinds.len(),
{
    if kinds.len() == 0 {
        if skip {
            Result::Err(ParseError::TruncatedManifest)
        } else {
            Result::Ok(tags)
        }
    } else {
        let rest = kinds.skip(1);
        match kinds[0] {
            LineKindV::Comment => build_master_rec(rest, base, tags, skip),
            LineKindV::Tag(t) => if skip {
                build_master_rec(rest, base, tags, false)
            } else if is_variant_tag(t.name) {
                build_master_rec(rest, base, tags.push(t), true)
            } else if is_segment_tag(t.name) {
                Result::Err(ParseError::StructuralError)
            } else {
                build_master_rec(rest, base, tags.push(t), false)
            },
            LineKindV::Uri(u) => if skip {
                if tags.len() > 0 {
                    build_master_rec(
                        rest,
                        base,
                        tags.update(
                            tags.len() - 1,
                            attach_uri(tags.last(), resolve_view(base, u)),
                        ),
                        false,
                    )
                } else {
                    build_master_rec(rest, base, tags, false)
                }
            } else {
                Result::Err(ParseError::StructuralError)
            },
        }
    }
}

/// What the master build yields for a line sequence.
pub open spec fn build_master_spec(kinds: Seq<LineKindV>, base: Seq<char>) -> Result<
    Seq<TagV>,
    ParseError,
> {
    build_master_rec(kinds, base, Seq::empty(), false)
}

/// Builds the playlist-scoped tags and the segments of a media playlist.
pub fn build_media_playlist(kinds: Vec<LineKind>, base: &str) -> (r: Result<
    (Vec<Tag>, Vec<Segment>),
    ParseError,
>)
    ensures
        match r {
            Result::Ok(p) => build_media_spec(kinds_view(kinds@), base@) == Result::Ok::<
                (Seq<TagV>, Seq<SegmentV>),
                ParseError,
            >((tags_view(p.0@), segs_view(p.1@))),
            Result::Err(e) => build_media_spec(kinds_view(kinds@), base@) == Result::Err::<
                (Seq<TagV>, Seq<SegmentV>),
                ParseError,
            >(e),
        },
{
    let ghost kv = kinds_view(kinds@);
    let mut rest = kinds;
    let mut ptags: Vec<Tag> = Vec::new();
    let mut acc: Vec<Tag> = Vec::new();
    let mut segs: Vec<Segment> = Vec::new();
    let ghost mut i: int = 0;
    proof {
        assert(kv.skip(0) =~= kv);
        assert(tags_view(ptags@) =~= Seq::<TagV>::empty());
        assert(tags_view(acc@) =~= Seq::<TagV>::empty());
        assert(segs_view(segs@) =~= Seq::<SegmentV>::empty());
    }
    while rest.len() > 0
        invariant
            kv == kinds_view(kinds@),
            0 <= i <= kv.len(),
            kinds_view(rest@) =~= kv.skip(i),
            rest@.len() == kv.len() - i,
            build_media_spec(kv, base@) == build_media_rec(
                kv.skip(i),
                base@,
                tags_view(ptags@),
                tags_view(acc@),
                segs_view(segs@),
            ),
        decreases rest@.len(),
    {
        let ghost rem = kv.skip(i);
        proof {
            assert(rem.len() > 0);
            assert(rem[0] == kinds_view(rest@)[0]);
            assert(kinds_view(rest@)[0] == rest@[0]@);
            assert(kinds_view(rest@).skip(1) =~= kv.skip(i + 1));
        }
        let k = rest.remove(0);
        proof {
            assert(kinds_view(rest@) =~= kv.skip(i + 1));
        }
        match k {
            LineKind::Comment => {},
            LineKind::Tag(t) => {
                if is_variant_tag_name(t.name.as_str()) {
                    return Result::Err(ParseError::StructuralError);
                } else if is_segment_tag_name(t.name.as_str()) {
                    let ghost a0 = acc@;
                    acc.push(t);
                    proof {
                        assert(tags_view(acc@) =~= tags_view(a0).push(rem[0]->Tag_0));
                    }
                } else {
                    let ghost p0 = ptags@;
                    ptags.push(t);
                    proof {
                        assert(tags_view(ptags@) =~= tags_view(p0).push(rem[0]->Tag_0));
                    }
                }
            },
            LineKind::Uri(u) => {
                let uri = resolve(base, u.as_str());
                let mut taken: Vec<Tag> = Vec::new();
                core::mem::swap(&mut taken, &mut acc);
                let ghost s0 = segs@;
                segs.push(Segment::new(uri, taken));
                proof {
                    assert(segs_view(segs@) =~= segs_view(s0).push(
                        SegmentV {
                            absolute_uri: resolve_view(base@, rem[0]->Uri_0),
                            tags: tags_view(taken@),
                        },
                    ));
                    assert(tags_view(acc@) =~= Seq::<TagV>::empty());
                }
            },
        }
        proof {
            i = i + 1;
        }
    }
    proof {
        assert(kv.skip(i) =~= Seq::<LineKindV>::empty());
    }
    Result::Ok((ptags, segs))
}

/// Builds the tag list of a master playlist, attaching each variant's
/// resolved companion URI.
pub fn build_master_playlist(kinds: Vec<LineKind>, base: &str) -> (r: Result<Vec<Tag>, ParseError>)
    ensures
        match r {
            Result::Ok(v) => build_master_spec(kinds_view(kinds@), base@) == Result::Ok::<
                Seq<TagV>,
                ParseError,
            >(tags_view(v@)),
            Result::Err(e) => build_master_spec(kinds_view(kinds@), base@) == Result::Err::<
                Seq<TagV>,
                ParseError,
            >(e),
        },
{
    let ghost kv = kinds_view(kinds@);
    let mut rest = kinds;
    let mut tags: Vec<Tag> = Vec::new();
    let mut skip: bool = false;
    let ghost mut i: int = 0;
    proof {
        assert(kv.skip(0) =~= kv);
        assert(tags_view(tags@) =~= Seq::<TagV>::empty());
    }
    while rest.len() > 0
        invariant
            kv == kinds_view(kinds@),
            0 <= i <= kv.len(),
            kinds_view(rest@) =~= kv.skip(i),
            rest@.len() == kv.len() - i,
            build_master_spec(kv, base@) == build_master_rec(
                kv.skip(i),
                base@,
                tags_view(tags@),
                skip,
            ),
        decreases rest@.len(),
    {
        let ghost rem = kv.skip(i);
        proof {
            assert(rem.len() > 0);
            assert(rem[0] == kinds_view(rest@)[0]);
            assert(kinds_view(rest@)[0] == rest@[0]@);
            assert(kinds_view(rest@).skip(1) =~= kv.skip(i + 1));
        }
        let k = rest.remove(0);
        proof {
            assert(kinds_view(rest@) =~= kv.skip(i + 1));
        }
        match k {
            LineKind::Comment => {},
            LineKind::Tag(t) => {
                if skip {
                    skip = false;
                } else if is_variant_tag_name(t.name.as_str()) {
                    let ghost t0 = tags@;
                    tags.push(t);
                    proof {
                        assert(tags_view(tags@) =~= tags_view(t0).push(rem[0]->Tag_0));
                    }
                    skip = true;
                } else if is_segment_tag_name(t.name.as_str()) {
                    return Result::Err(ParseError::StructuralError);
                } else {
                    let ghost t0 = tags@;
                    tags.push(t);
                    proof {
                        assert(tags_view(tags@) =~= tags_view(t0).push(rem[0]->Tag_0));
                    }
                }
            },
            LineKind::Uri(u) => {
                if skip {
                    if tags.len() > 0 {
                        let uri = resolve(base, u.as_str());
                        let ghost t0 = tags@;
                        let mut t = match tags.pop() {
                            Option::Some(x) => x,
                            Option::None => {
                                proof {
                                    assert(false);
                                }
                                unreached()
                            },
                        };
                        t.add_attribute(Attribute::new("URI".to_owned(), uri));
                        tags.push(t);
                        proof {
                            assert(t@ == attach_uri(
                                tags_view(t0).last(),
                                resolve_view(base@, rem[0]->Uri_0),
                            ));
                            assert(tags_view(tags@) =~= tags_view(t0).update(
                                tags_view(t0).len() - 1,
                                attach_uri(tags_view(t0).last(), resolve_view(base@, rem[0]->Uri_0)),
                            ));
                        }
                    }
                    skip = false;
                } else {
                    return Result::Err(ParseError::StructuralError);
                }
            },
        }
        proof {
            i = i + 1;
        }
    }
    proof {
        assert(kv.skip(i) =~= Seq::<LineKindV>::empty());
    }
    if skip {
        return Result::Err(ParseError::TruncatedManifest);
    }
    Result::Ok(tags)
}

/// Whether every tag of a segment is segment-scoped.
pub open spec fn seg_tags_scoped(s: SegmentV) -> bool {
    forall|x: int| 0 <= x < s.tags.len() ==> is_segment_tag(#[trigger] s.tags[x].name)
}

/// Whether every segment of a sequence holds only segment-scoped tags.
pub open spec fn all_segs_scoped(segs: Seq<SegmentV>) -> bool {
    forall|k: int| 0 <= k < segs.len() ==> seg_tags_scoped(#[trigger] segs[k])
}

/// Whether every tag of a sequence is segment-scoped.
pub open spec fn tags_all_segment(acc: Seq<TagV>) -> bool {
    forall|x: int| 0 <= x < acc.len() ==> is_segment_tag(#[trigger] acc[x].name)
}

proof fn lemma_media_rec_scoped(
    kinds: Seq<LineKindV>,
    base: Seq<char>,
    ptags: Seq<TagV>,
    acc: Seq<TagV>,
    segs: Seq<SegmentV>,
)
    requires
        tags_all_segment(acc),
        all_segs_scoped(segs),
        build_media_rec(kinds, base, ptags, acc, segs) is Ok,
    ensures
        all_segs_scoped((build_media_rec(kinds, base, ptags, acc, segs)->Ok_0).1),
    decreases kinds.len(),
{
    if kinds.len() > 0 {
        let rest = kinds.skip(1);
        match kinds[0] {
            LineKindV::Comment => lemma_media_rec_scoped(rest, base, ptags, acc, segs),
            LineKindV::Tag(t) => if is_segment_tag(t.name) {
                assert(tags_all_segment(acc.push(t)));
                lemma_media_rec_scoped(rest, base, ptags, acc.push(t), segs);
            } else {
                lemma_media_rec_scoped(rest, base, ptags.push(t), acc, segs);
            },
            LineKindV::Uri(u) => {
                let s = SegmentV { absolute_uri: resolve_view(base, u), tags: acc };
                assert(seg_tags_scoped(s));
                assert(all_segs_scoped(segs.push(s)));
                lemma_media_rec_scoped(rest, base, ptags, Seq::empty(), segs.push(s));
            },
        }
    }
}

/// Each segment of a successfully built media playlist holds only
/// segment-scoped tags: playlist-scoped tags never stray into a segment.
pub proof fn lemma_media_segment_tags_are_segment_scoped(kinds: Seq<LineKindV>, base: Seq<char>)
    ensures
        build_media_spec(kinds, base) matches Ok(p) ==> all_segs_scoped(p.1),
{
    if build_media_spec(kinds, base) is Ok {
        lemma_media_rec_scoped(kinds, base, Seq::empty(), Seq::empty(), Seq::empty());
    }
}

/// The number of URI lines in a line sequence.
pub open spec fn count_uris(kinds: Seq<LineKindV>) -> int
    decreases kinds.len(),
{
    if kinds.len() == 0 {
        0
    } else {
        (if kinds[0] is Uri {
            1int
        } else {
            0int
        }) + count_uris(kinds.skip(1))
    }
}

/// Whether a variant-stream tag occurs anywhere in a line sequence.
pub open spec fn has_variant_tag(kinds: Seq<LineKindV>) -> bool {
    exists|j: int|
        0 <= j < kinds.len() && #[trigger] kinds[j] is Tag && is_variant_tag(kinds[j]->Tag_0.name)
}

proof fn lemma_media_rec_segment_count(
    kinds: Seq<LineKindV>,
    base: Seq<char>,
    ptags: Seq<TagV>,
    acc: Seq<TagV>,
    segs: Seq<SegmentV>,
)
    requires
        build_media_rec(kinds, base, ptags, acc, segs) is Ok,
    ensures
        (build_media_rec(kinds, base, ptags, acc, segs)->Ok_0).1.len() == segs.len() + count_uris(
            kinds,
        ),
    decreases kinds.len(),
{
    if kinds.len() > 0 {
        let rest = kinds.skip(1);
        match kinds[0] {
            LineKindV::Comment => lemma_media_rec_segment_count(rest, base, ptags, acc, segs),
            LineKindV::Tag(t) => if is_segment_tag(t.name) {
                lemma_media_rec_segment_count(rest, base, ptags, acc.push(t), segs);
            } else {
                lemma_media_rec_segment_count(rest, base, ptags.push(t), acc, segs);
            },
            LineKindV::Uri(u) => lemma_media_rec_segment_count(
                rest,
                base,
                ptags,
                Seq::empty(),
                segs.push(SegmentV { absolute_uri: resolve_view(base, u), tags: acc }),
            ),
        }
    }
}

/// A media playlist that builds successfully holds exactly one segment per
/// URI line of its input.
pub proof fn lemma_media_segments_match_uris(kinds: Seq<LineKindV>, base: Seq<char>)
    ensures
        build_media_spec(kinds, base) matches Ok(p) ==> p.1.len() == count_uris(kinds),
{
    if build_media_spec(kinds, base) is Ok {
        lemma_media_rec_segment_count(kinds, base, Seq::empty(), Seq::empty(), Seq::empty());
    }
}

proof fn lemma_media_rec_variant_err(
    kinds: Seq<LineKindV>,
    base: Seq<char>,
    ptags: Seq<TagV>,
    acc: Seq<TagV>,
    segs: Seq<SegmentV>,
)
    ensures
        build_media_rec(kinds, base, ptags, acc, segs) is Err <==> has_variant_tag(kinds),
        build_media_rec(kinds, base, ptags, acc, segs) is Err ==> build_media_rec(
            kinds,
            base,
            ptags,
            acc,
            segs,
        ) == Result::<(Seq<TagV>, Seq<SegmentV>), ParseError>::Err(ParseError::StructuralError),
    decreases kinds.len(),
{
    if kinds.len() == 0 {
    } else {
        let rest = kinds.skip(1);
        let hd = kinds[0];
        if hd is Tag && is_variant_tag(hd->Tag_0.name) {
            assert(has_variant_tag(kinds));
        } else {
            match hd {
                LineKindV::Comment => lemma_media_rec_variant_err(rest, base, ptags, acc, segs),
                LineKindV::Tag(t) => if is_segment_tag(t.name) {
                    lemma_media_rec_variant_err(rest, base, ptags, acc.push(t), segs);
                } else {
                    lemma_media_rec_variant_err(rest, base, ptags.push(t), acc, segs);
                },
                LineKindV::Uri(u) => lemma_media_rec_variant_err(
                    rest,
                    base,
                    ptags,
                    Seq::empty(),
                    segs.push(SegmentV { absolute_uri: resolve_view(base, u), tags: acc }),
                ),
            }
            if has_variant_tag(rest) {
                let j = choose|j: int|
                    0 <= j < rest.len() && #[trigger] rest[j] is Tag && is_variant_tag(
                        rest[j]->Tag_0.name,
                    );
                assert(kinds[j + 1] == rest[j]);
                assert(has_variant_tag(kinds));
            }
            if has_variant_tag(kinds) {
                let j = choose|j: int|
                    0 <= j < kinds.len() && #[trigger] kinds[j] is Tag && is_variant_tag(
                        kinds[j]->Tag_0.name,
                    );
                assert(j != 0);
                assert(rest[j - 1] == kinds[j]);
                assert(has_variant_tag(rest));
            }
        }
    }
}

/// A line sequence built as a media playlist fails, and fails with the
/// structural error, exactly when it contains a variant-stream tag; no
/// playlist is produced in that case.
pub proof fn lemma_media_variant_is_structural_error(kinds: Seq<LineKindV>, base: Seq<char>)
    ensures
        build_media_spec(kinds, base) is Err <==> has_variant_tag(kinds),
        build_media_spec(kinds, base) is Err ==> build_media_spec(kinds, base) == Result::<
            (Seq<TagV>, Seq<SegmentV>),
            ParseError,
        >::Err(ParseError::StructuralError),
{
    lemma_media_rec_variant_err(kinds, base, Seq::empty(), Seq::empty(), Seq::empty());
}

} // verus!
