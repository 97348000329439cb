//! The playlist data model: playlists, tags, attributes and segments, each
//! with a sequence-level view used by the parser's contracts.

use vstd::prelude::*;

verus! {

/// One `name=value` pair from a tag's attribute list. Order and duplicates
/// of the source are preserved by the parser; nothing is merged.
#[derive(Clone, Debug)]
pub struct Attribute {
    pub name: String,
    pub value: String,
}

/// Mathematical view of an [`Attribute`].
pub struct AttributeV {
    pub name: Seq<char>,
    pub value: Seq<char>,
}

impl View for Attribute {
    type V = AttributeV;

    open spec fn view(&self) -> AttributeV {
        AttributeV { name: self.name@, value: self.value@ }
    }
}

impl Attribute {
    pub fn new(name: String, value: String) -> (r: Self)
        ensures
            r@.name == name@,
            r@.value == value@,
    {
        Self { name, value }
    }
}

/// What follows a tag's name: nothing, one opaque value string, or an
/// attribute list. The three-way variant rules out a tag carrying both a
/// value and attributes.
#[derive(Clone, Debug)]
pub enum TagBody {
    Empty,
    Value(String),
    Attributes(Vec<Attribute>),
}

/// Mathematical view of a [`TagBody`].
pub enum TagBodyV {
    Empty,
    Value(Seq<char>),
    Attributes(Seq<AttributeV>),
}

/// View of a sequence of attributes.
pub open spec fn attrs_view(v: Seq<Attribute>) -> Seq<AttributeV> {
    v.map_values(|a: Attribute| a@)
}

impl View for TagBody {
    type V = TagBodyV;

    open spec fn view(&self) -> TagBodyV {
        match self {
            TagBody::Empty => TagBodyV::Empty,
            TagBody::Value(v) => TagBodyV::Value(v@),
            TagBody::Attributes(l) => TagBodyV::Attributes(attrs_view(l@)),
        }
    }
}

/// One manifest tag: a line beginning `#EXT`, stripped of the leading `#`.
#[derive(Clone, Debug)]
pub struct Tag {
    pub name: String,
    pub body: TagBody,
}

/// Mathematical view of a [`Tag`].
pub struct TagV {
    pub name: Seq<char>,
    pub body: TagBodyV,
}

impl View for Tag {
    type V = TagV;

    open spec fn view(&self) -> TagV {
        TagV { name: self.name@, body: self.body@ }
    }
}

/// View of a sequence of tags.
pub open spec fn tags_view(v: Seq<Tag>) -> Seq<TagV> {
    v.map_values(|t: Tag| t@)
}

/// A well-formed tag name is non-empty and does not begin with `#`.
pub open spec fn tag_name_wf(n: Seq<char>) -> bool {
    n.len() > 0 && n[0] != '#'
}

impl Tag {
    /// Builds a tag from a name and an optional value or attribute list.
    /// A present value takes precedence; with neither, the body is empty.
    pub fn new(name: String, value: Option<String>, attributes: Option<Vec<Attribute>>) -> (r:
        Self)
        ensures
            r@.name == name@,
            r@.body == (match value {
                Option::Some(v) => TagBodyV::Value(v@),
                Option::None => match attributes {
                    Option::Some(a) => TagBodyV::Attributes(attrs_view(a@)),
                    Option::None => TagBodyV::Empty,
                },
            }),
    {
        let body = match value {
            Option::Some(v) => TagBody::Value(v),
            Option::None => match attributes {
                Option::Some(a) => TagBody::Attributes(a),
                Option::None => TagBody::Empty,
            },
        };
        Self { name, body }
    }

    /// Appends an attribute to the tag's attribute list. An empty body
    /// becomes a one-element list; an opaque value body is replaced by a
    /// one-element list, since a tag cannot carry both.
    pub fn add_attribute(&mut self, attribute: Attribute)
        ensures
            final(self)@.name == old(self)@.name,
            final(self)@.body == (match old(self)@.body {
                TagBodyV::Attributes(l) => TagBodyV::Attributes(l.push(attribute@)),
                _ => TagBodyV::Attributes(seq![attribute@]),
            }),
    {
        let mut body = TagBody::Empty;
        core::mem::swap(&mut body, &mut self.body);
        match body {
            TagBody::Attributes(mut l) => {
                let ghost l0 = l@;
                l.push(attribute);
                assert(attrs_view(l@) =~= attrs_view(l0).push(attribute@));
                self.body = TagBody::Attributes(l);
            },
            _ => {
                let l = vec![attribute];
                assert(attrs_view(l@) =~= seq![attribute@]);
                self.body = TagBody::Attributes(l);
            },
        }
    }
}

/// Whether a playlist lists variants (master) or playable segments (media).
#[derive(Copy, Clone, PartialEq, Eq, Structural, Debug)]
pub enum PlaylistType {
    Master,
    Media,
}

/// One playable media unit: its resolved absolute URI and the segment-scoped
/// tags that immediately preceded its URI line.
#[derive(Debug)]
pub struct Segment {
    pub absolute_uri: String,
    pub tags: Vec<Tag>,
}

/// Mathematical view of a [`Segment`].
pub struct SegmentV {
    pub absolute_uri: Seq<char>,
    pub tags: Seq<TagV>,
}

impl View for Segment {
    type V = SegmentV;

    open spec fn view(&self) -> SegmentV {
        SegmentV { absolute_uri: self.absolute_uri@, tags: tags_view(self.tags@) }
    }
}

/// View of a sequence of segments.
pub open spec fn segs_view(v: Seq<Segment>) -> Seq<SegmentV> {
    v.map_values(|s: Segment| s@)
}

impl Segment {
    pub fn new(absolute_uri: String, tags: Vec<Tag>) -> (r: Self)
        ensures
            r@.absolute_uri == absolute_uri@,
            r@.tags == tags_view(tags@),
    {
        Self { absolute_uri, tags }
    }
}

/// A fully parsed manifest: its own absolute URI, its kind, its
/// playlist-scoped tags, and, for a media playlist, its segments.
#[derive(Debug)]
pub struct Playlist {
    pub absolute_uri: String,
    pub playlist_type: PlaylistType,
    pub tags: Vec<Tag>,
    pub segments: Option<Vec<Segment>>,
}

/// Mathematical view of a [`Playlist`].
pub struct PlaylistV {
    pub absolute_uri: Seq<char>,
    pub playlist_type: PlaylistType,
    pub tags: Seq<TagV>,
    pub segments: Option<Seq<SegmentV>>,
}

impl View for Playlist {
    type V = PlaylistV;

    open spec fn view(&self) -> PlaylistV {
        PlaylistV {
            absolute_uri: self.absolute_uri@,
            playlist_type: self.playlist_type,
            tags: tags_view(self.tags@),
            segments: match self.segments {
                Option::Some(ref v) => Option::Some(segs_view(v@)),
                Option::None => Option::None,
            },
        }
    }
}

/// A playlist is well formed when it carries segments exactly if it is a
/// media playlist.
pub open spec fn playlist_wf(p: PlaylistV) -> bool {
    (p.playlist_type == PlaylistType::Media) <==> (p.segments is Some)
}

impl Playlist {
    pub fn new(
        absolute_uri: String,
        playlist_type: PlaylistType,
        tags: Vec<Tag>,
        segments: Option<Vec<Segment>>,
    ) -> (r: Self)
        ensures
            r@.absolute_uri == absolute_uri@,
            r@.playlist_type == playlist_type,
            r@.tags == tags_view(tags@),
            r@.segments == (match segments {
                Option::Some(v) => Option::Some(segs_view(v@)),
                Option::None => Option::None::<Seq<SegmentV>>,
            }),
    {
        Self { absolute_uri, playlist_type, tags, segments }
    }
}

/// How a parse fails, or, for [`ParseError::MalformedHeader`], the one
/// diagnostic that does not abort parsing.
#[derive(Copy, Clone, PartialEq, Eq, Structural, Debug)]
pub enum ParseError {
    /// The first line is not the `#EXTM3U` signature.
    MalformedHeader,
    /// A line handed to the tag parser is not a tag: it does not begin
    /// `#EXT`.
    TagSyntaxError,
    /// An attribute list component lacks `=`, or a quoted value is
    /// unterminated.
    AttributeSyntaxError,
    /// A segment-scoped tag or an orphan URI in a master playlist, or a
    /// variant-stream tag in a media playlist.
    StructuralError,
    /// The manifest ends where a variant-stream tag still awaits its URI
    /// line.
    TruncatedManifest,
}

/// What one manifest line is: a comment, a tag, or a URI reference.
pub enum LineKind {
    Comment,
    Tag(Tag),
    Uri(String),
}

/// Mathematical view of a [`LineKind`].
pub enum LineKindV {
    Comment,
    Tag(TagV),
    Uri(Seq<char>),
}

impl View for LineKind {
    type V = LineKindV;

    open spec fn view(&self) -> LineKindV {
        match self {
            LineKind::Comment => LineKindV::Comment,
            LineKind::Tag(t) => LineKindV::Tag(t@),
            LineKind::Uri(u) => LineKindV::Uri(u@),
        }
    }
}

/// View of a sequence of line kinds.
pub open spec fn kinds_view(v: Seq<LineKind>) -> Seq<LineKindV> {
    v.map_values(|k: LineKind| k@)
}

} // verus!
