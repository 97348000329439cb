use hls_manifest::hls_structs::{Attribute, ParseError, Playlist, PlaylistType, Tag, TagBody};
use hls_manifest::lines::validate_header;
use hls_manifest::manifest_text_parser::ManifestTextParser;
use hls_manifest::tag_parser::{parse_attributes, parse_line, is_comment};
use hls_manifest::hls_structs::LineKind;

fn parse(data: &str, base: &str) -> Result<Playlist, ParseError> {
    ManifestTextParser::new().parse_playlist(data.to_string(), base.to_string())
}

fn attr_pairs(attrs: &[Attribute]) -> Vec<(String, String)> {
    attrs.iter().map(|a| (a.name.clone(), a.value.clone())).collect()
}

fn body_attrs(t: &Tag) -> &[Attribute] {
    match &t.body {
        TagBody::Attributes(l) => l,
        _ => panic!("expected attribute body"),
    }
}

#[test]
fn attribute_round_trip_preserves_quoted_comma() {
    let attrs = parse_attributes("CODECS=\"avc1.4d401f,mp4a.40.2\",BANDWIDTH=100000").unwrap();
    assert_eq!(attrs.len(), 2);
    assert_eq!(attrs[0].name, "CODECS");
    assert_eq!(attrs[0].value, "avc1.4d401f,mp4a.40.2");
    assert_eq!(attrs[1].name, "BANDWIDTH");
    assert_eq!(attrs[1].value, "100000");
}

#[test]
fn attribute_order_and_duplicates_preserved() {
    let attrs = parse_attributes("A=1,A=2,B=3").unwrap();
    let pairs = attr_pairs(&attrs);
    assert_eq!(
        pairs,
        vec![
            ("A".to_string(), "1".to_string()),
            ("A".to_string(), "2".to_string()),
            ("B".to_string(), "3".to_string())
        ]
    );
}

#[test]
fn attribute_component_without_equals_is_error() {
    assert_eq!(parse_attributes("BANDWIDTH").unwrap_err(), ParseError::AttributeSyntaxError);
    assert_eq!(parse_attributes("A=1,JUNK,B=2").unwrap_err(), ParseError::AttributeSyntaxError);
}

#[test]
fn attribute_unterminated_quote_is_error() {
    assert_eq!(
        parse_attributes("URI=\"http://example.com").unwrap_err(),
        ParseError::AttributeSyntaxError
    );
}

#[test]
fn media_scenario_builds_one_segment() {
    let p = parse(
        "#EXTM3U\n#EXT-X-TARGETDURATION:10\n#EXTINF:9.9,\nseg1.ts",
        "http://example.com/path/playlist.m3u8",
    )
    .unwrap();
    assert!(matches!(p.playlist_type, PlaylistType::Media));
    assert_eq!(p.tags.len(), 1);
    assert_eq!(p.tags[0].name, "EXT-X-TARGETDURATION");
    match &p.tags[0].body {
        TagBody::Value(v) => assert_eq!(v, "10"),
        _ => panic!("expected value body"),
    }
    let segs = p.segments.as_ref().unwrap();
    assert_eq!(segs.len(), 1);
    assert_eq!(segs[0].absolute_uri, "http://example.com/path/seg1.ts");
    assert_eq!(segs[0].tags.len(), 1);
    assert_eq!(segs[0].tags[0].name, "EXTINF");
    match &segs[0].tags[0].body {
        TagBody::Value(v) => assert_eq!(v, "9.9,"),
        _ => panic!("expected value body"),
    }
}

#[test]
fn master_scenario_attaches_resolved_uri_attribute() {
    let p = parse(
        "#EXTM3U\n#EXT-X-STREAM-INF:BANDWIDTH=100000\nvar1.m3u8",
        "http://example.com/path/master.m3u8",
    )
    .unwrap();
    assert!(matches!(p.playlist_type, PlaylistType::Master));
    assert!(p.segments.is_none());
    assert_eq!(p.tags.len(), 1);
    assert_eq!(p.tags[0].name, "EXT-X-STREAM-INF");
    let pairs = attr_pairs(body_attrs(&p.tags[0]));
    assert_eq!(
        pairs,
        vec![
            ("BANDWIDTH".to_string(), "100000".to_string()),
            ("URI".to_string(), "http://example.com/path/var1.m3u8".to_string())
        ]
    );
}

#[test]
fn variant_tag_in_media_playlist_is_structural_error() {
    let r = parse(
        "#EXTM3U\n#EXT-X-TARGETDURATION:10\n#EXT-X-STREAM-INF:BANDWIDTH=1\nvar.m3u8",
        "http://example.com/m.m3u8",
    );
    assert_eq!(r.unwrap_err(), ParseError::StructuralError);
}

#[test]
fn variant_tag_before_media_tag_still_structural_error() {
    // The classifying scan skips the variant's companion URI and still
    // finds the media-only tag, so the media build then rejects the
    // variant tag.
    let r = parse(
        "#EXTM3U\n#EXT-X-STREAM-INF:BANDWIDTH=1\nvar.m3u8\n#EXT-X-ENDLIST",
        "http://example.com/m.m3u8",
    );
    assert_eq!(r.unwrap_err(), ParseError::StructuralError);
}

#[test]
fn segment_tag_in_master_playlist_is_structural_error() {
    let r = parse("#EXTM3U\n#EXTINF:9.9,\n#EXT-X-VERSION:4", "http://example.com/m.m3u8");
    assert_eq!(r.unwrap_err(), ParseError::StructuralError);
}

#[test]
fn orphan_uri_in_master_playlist_is_structural_error() {
    let r = parse("#EXTM3U\n#EXT-X-VERSION:4\nstray.ts", "http://example.com/m.m3u8");
    assert_eq!(r.unwrap_err(), ParseError::StructuralError);
}

#[test]
fn variant_tag_without_following_line_is_truncated() {
    let r = parse("#EXTM3U\n#EXT-X-STREAM-INF:BANDWIDTH=100000", "http://example.com/m.m3u8");
    assert_eq!(r.unwrap_err(), ParseError::TruncatedManifest);
}

#[test]
fn header_mismatch_is_diagnosed_but_parse_continues() {
    let lines = vec!["#NOWHERE".to_string()];
    assert_eq!(validate_header(&lines).unwrap_err(), ParseError::MalformedHeader);
    let good = vec!["#EXTM3U".to_string()];
    assert!(validate_header(&good).is_ok());
    let trailing = vec!["#EXTM3U \t".to_string()];
    assert!(validate_header(&trailing).is_ok());
    let glued = vec!["#EXTM3U2".to_string()];
    assert_eq!(validate_header(&glued).unwrap_err(), ParseError::MalformedHeader);

    // The first line is consumed either way; the rest still parses.
    let p = parse("#NOWHERE\n#EXT-X-VERSION:4", "http://example.com/m.m3u8").unwrap();
    assert!(matches!(p.playlist_type, PlaylistType::Master));
    assert_eq!(p.tags.len(), 1);
    assert_eq!(p.tags[0].name, "EXT-X-VERSION");
}

#[test]
fn tag_parse_rejects_non_tag_line() {
    assert_eq!(
        ManifestTextParser::parse_tag("seg1.ts").unwrap_err(),
        ParseError::TagSyntaxError
    );
    assert_eq!(
        ManifestTextParser::parse_tag("#comment").unwrap_err(),
        ParseError::TagSyntaxError
    );
}

#[test]
fn tag_unterminated_quoted_value_is_attribute_syntax_error() {
    assert_eq!(
        ManifestTextParser::parse_tag("#EXT-X-KEY:METHOD=\"AES").unwrap_err(),
        ParseError::AttributeSyntaxError
    );
    assert_eq!(
        ManifestTextParser::parse_tag("#EXT-X-KEY:METHOD=AES-128,URI=\"https://a.com/key")
            .unwrap_err(),
        ParseError::AttributeSyntaxError
    );
}

#[test]
fn playlist_with_unterminated_quoted_value_fails_attribute_error() {
    let r = parse(
        "#EXTM3U\n#EXT-X-TARGETDURATION:10\n#EXT-X-KEY:METHOD=AES-128,URI=\"https://a.com/key\n#EXTINF:9.0,\nseg1.ts",
        "http://example.com/m.m3u8",
    );
    assert_eq!(r.unwrap_err(), ParseError::AttributeSyntaxError);
}

#[test]
fn stray_quote_in_value_component_stays_a_value() {
    let t = ManifestTextParser::parse_tag("#EXTINF:9.9,Some \"Title").unwrap();
    assert_eq!(t.name, "EXTINF");
    match &t.body {
        TagBody::Value(v) => assert_eq!(v, "9.9,Some \"Title"),
        _ => panic!("expected value body"),
    }
}

#[test]
fn tag_without_colon_has_empty_body() {
    let t = ManifestTextParser::parse_tag("#EXT-X-ENDLIST").unwrap();
    assert_eq!(t.name, "EXT-X-ENDLIST");
    assert!(matches!(t.body, TagBody::Empty));
}

#[test]
fn tag_with_comma_value_stays_one_value() {
    let t = ManifestTextParser::parse_tag("#EXTINF:9.9,Some Title").unwrap();
    assert_eq!(t.name, "EXTINF");
    match &t.body {
        TagBody::Value(v) => assert_eq!(v, "9.9,Some Title"),
        _ => panic!("expected value body"),
    }
}

#[test]
fn tag_with_attribute_list_parses_attributes() {
    let t = ManifestTextParser::parse_tag(
        "#EXT-X-KEY:METHOD=AES-128,URI=\"http://k.example/key?x=1\"",
    )
    .unwrap();
    assert_eq!(t.name, "EXT-X-KEY");
    let pairs = attr_pairs(body_attrs(&t));
    assert_eq!(
        pairs,
        vec![
            ("METHOD".to_string(), "AES-128".to_string()),
            ("URI".to_string(), "http://k.example/key?x=1".to_string())
        ]
    );
}

#[test]
fn comment_detection() {
    assert!(is_comment("#comment"));
    assert!(is_comment("# EXT"));
    assert!(!is_comment("#EXT-X-ENDLIST"));
    assert!(!is_comment("seg.ts"));
    assert!(matches!(parse_line("#anything").unwrap(), LineKind::Comment));
}

#[test]
fn uri_line_is_trimmed() {
    match parse_line("  seg1.ts  ").unwrap() {
        LineKind::Uri(u) => assert_eq!(u, "seg1.ts"),
        _ => panic!("expected uri"),
    }
}

#[test]
fn crlf_and_bare_cr_line_endings_are_normalized() {
    let p = parse(
        "#EXTM3U\r\n#EXT-X-TARGETDURATION:10\r#EXTINF:9.9,\r\nseg1.ts\r\n",
        "http://example.com/a/p.m3u8",
    )
    .unwrap();
    let segs = p.segments.as_ref().unwrap();
    assert_eq!(segs.len(), 1);
    assert_eq!(segs[0].absolute_uri, "http://example.com/a/seg1.ts");
}

#[test]
fn blank_lines_are_dropped() {
    let p = parse(
        "#EXTM3U\n\n#EXT-X-TARGETDURATION:10\n   \n#EXTINF:9.9,\n\nseg1.ts\n\n",
        "http://example.com/a/p.m3u8",
    )
    .unwrap();
    assert_eq!(p.segments.as_ref().unwrap().len(), 1);
}

#[test]
fn segment_count_matches_uri_lines() {
    let p = parse(
        "#EXTM3U\n#EXT-X-TARGETDURATION:10\n#EXTINF:9.0,\nseg1.ts\n#comment between segments\n#EXTINF:9.1,\nseg2.ts\n#EXTINF:9.2,\nseg3.ts\n#EXT-X-ENDLIST",
        "http://example.com/a/p.m3u8",
    )
    .unwrap();
    let segs = p.segments.as_ref().unwrap();
    assert_eq!(segs.len(), 3);
    assert_eq!(segs[0].absolute_uri, "http://example.com/a/seg1.ts");
    assert_eq!(segs[1].absolute_uri, "http://example.com/a/seg2.ts");
    assert_eq!(segs[2].absolute_uri, "http://example.com/a/seg3.ts");
    // EXT-X-ENDLIST is playlist-scoped, alongside the target duration.
    assert_eq!(p.tags.len(), 2);
    assert_eq!(p.tags[1].name, "EXT-X-ENDLIST");
}

#[test]
fn key_tag_stays_with_its_own_segment() {
    let p = parse(
        "#EXTM3U\n#EXT-X-TARGETDURATION:10\n#EXT-X-KEY:METHOD=AES-128\n#EXTINF:9.0,\nseg1.ts\n#EXTINF:9.1,\nseg2.ts\n",
        "http://example.com/a/p.m3u8",
    )
    .unwrap();
    let segs = p.segments.as_ref().unwrap();
    assert_eq!(segs.len(), 2);
    assert_eq!(segs[0].tags.len(), 2);
    assert_eq!(segs[0].tags[0].name, "EXT-X-KEY");
    assert_eq!(segs[0].tags[1].name, "EXTINF");
    // The key is not propagated to the next segment.
    assert_eq!(segs[1].tags.len(), 1);
    assert_eq!(segs[1].tags[0].name, "EXTINF");
}

#[test]
fn unknown_tag_is_playlist_scoped_in_media() {
    let p = parse(
        "#EXTM3U\n#EXT-X-TARGETDURATION:10\n#EXT-X-VENDOR-THING:1\n#EXTINF:9.0,\nseg1.ts",
        "http://example.com/a/p.m3u8",
    )
    .unwrap();
    assert_eq!(p.tags.len(), 2);
    assert_eq!(p.tags[1].name, "EXT-X-VENDOR-THING");
    assert_eq!(p.segments.as_ref().unwrap()[0].tags.len(), 1);
}

#[test]
fn master_with_several_variants() {
    let p = parse(
        "#EXTM3U\n#EXT-X-STREAM-INF:BANDWIDTH=100000\nlow/var.m3u8\n#EXT-X-STREAM-INF:BANDWIDTH=200000\nhigh/var.m3u8\n",
        "http://example.com/a/master.m3u8",
    )
    .unwrap();
    assert!(matches!(p.playlist_type, PlaylistType::Master));
    assert_eq!(p.tags.len(), 2);
    let p0 = attr_pairs(body_attrs(&p.tags[0]));
    assert_eq!(p0[1], ("URI".to_string(), "http://example.com/a/low/var.m3u8".to_string()));
    let p1 = attr_pairs(body_attrs(&p.tags[1]));
    assert_eq!(p1[1], ("URI".to_string(), "http://example.com/a/high/var.m3u8".to_string()));
}

#[test]
fn empty_manifest_is_master_with_no_tags() {
    let p = parse("#EXTM3U", "http://example.com/a/m.m3u8").unwrap();
    assert!(matches!(p.playlist_type, PlaylistType::Master));
    assert!(p.tags.is_empty());
    assert!(p.segments.is_none());
}

#[test]
fn tag_constructors_and_add_attribute() {
    let mut t = Tag::new("EXT-X-STREAM-INF".to_string(), None, None);
    assert!(matches!(t.body, TagBody::Empty));
    t.add_attribute(Attribute::new("URI".to_string(), "x.m3u8".to_string()));
    let pairs = attr_pairs(body_attrs(&t));
    assert_eq!(pairs, vec![("URI".to_string(), "x.m3u8".to_string())]);

    let mut v = Tag::new("EXTINF".to_string(), Some("9.9,".to_string()), None);
    v.add_attribute(Attribute::new("A".to_string(), "1".to_string()));
    // A value body cannot hold attributes: it is replaced by the list.
    let pairs = attr_pairs(body_attrs(&v));
    assert_eq!(pairs, vec![("A".to_string(), "1".to_string())]);
}

#[test]
fn playlist_constructor_keeps_fields() {
    let p = Playlist::new(
        "http://example.com/m.m3u8".to_string(),
        PlaylistType::Master,
        vec![Tag::new("EXT-X-VERSION".to_string(), Some("4".to_string()), None)],
        None,
    );
    assert_eq!(p.absolute_uri, "http://example.com/m.m3u8");
    assert_eq!(p.tags.len(), 1);
    assert!(p.segments.is_none());
}

#[test]
fn independent_parses_do_not_interfere() {
    // The parser holds no state: interleaved parses of distinct inputs
    // each match their isolated result.
    let a_in = "#EXTM3U\n#EXT-X-TARGETDURATION:5\n#EXTINF:5.0,\na.ts";
    let b_in = "#EXTM3U\n#EXT-X-STREAM-INF:BANDWIDTH=1\nb.m3u8";
    let a1 = parse(a_in, "http://a.example/p.m3u8").unwrap();
    let b1 = parse(b_in, "http://b.example/p.m3u8").unwrap();
    let a2 = parse(a_in, "http://a.example/p.m3u8").unwrap();
    let b2 = parse(b_in, "http://b.example/p.m3u8").unwrap();
    assert_eq!(
        a1.segments.as_ref().unwrap()[0].absolute_uri,
        a2.segments.as_ref().unwrap()[0].absolute_uri
    );
    assert_eq!(
        attr_pairs(body_attrs(&b1.tags[0])),
        attr_pairs(body_attrs(&b2.tags[0]))
    );
}

#[test]
fn attribute_with_empty_value() {
    let attrs = parse_attributes("A=").unwrap();
    assert_eq!(attrs.len(), 1);
    assert_eq!(attrs[0].name, "A");
    assert_eq!(attrs[0].value, "");
}

#[test]
fn tag_with_colon_but_empty_rest_has_empty_value() {
    let t = ManifestTextParser::parse_tag("#EXT-X-FOO:").unwrap();
    assert_eq!(t.name, "EXT-X-FOO");
    match &t.body {
        TagBody::Value(v) => assert_eq!(v, ""),
        _ => panic!("expected value body"),
    }
}
