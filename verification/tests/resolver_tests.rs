use hls_manifest::manifest_text_parser::ManifestTextParser;
use hls_manifest::resolver::resolve;

fn cau(base: &str, r: &str) -> String {
    ManifestTextParser::construct_absolute_uri(base.to_string(), r.to_string())
}

#[test]
fn relative_sibling_reference() {
    assert_eq!(
        resolve("http://example.com/a/b.m3u8", "c.ts"),
        "http://example.com/a/c.ts"
    );
}

#[test]
fn absolute_reference_is_unchanged() {
    assert_eq!(
        resolve("http://example.com/a/b.m3u8", "https://other.example/x/y.ts"),
        "https://other.example/x/y.ts"
    );
}

#[test]
fn dot_dot_segments_collapse() {
    assert_eq!(resolve("http://h/a/b/c.m3u8", "../d.ts"), "http://h/a/d.ts");
    assert_eq!(resolve("http://h/a/b/c.m3u8", "../../d.ts"), "http://h/d.ts");
    assert_eq!(resolve("http://h/a/b/c.m3u8", "./d.ts"), "http://h/a/b/d.ts");
    assert_eq!(resolve("http://h/a/b/c.m3u8", "x/../d.ts"), "http://h/a/b/d.ts");
}

#[test]
fn rooted_reference_replaces_path() {
    assert_eq!(resolve("http://h/a/b/c.m3u8", "/root.ts"), "http://h/root.ts");
}

#[test]
fn query_and_fragment_come_from_reference() {
    assert_eq!(
        resolve("http://h/a/c.m3u8?old=1", "d.ts?q=2#frag"),
        "http://h/a/d.ts?q=2#frag"
    );
}

#[test]
fn empty_reference_keeps_base_path_and_query() {
    assert_eq!(resolve("http://h/a/c.m3u8?q=1", ""), "http://h/a/c.m3u8?q=1");
}

#[test]
fn network_path_reference_inherits_scheme_only() {
    assert_eq!(
        resolve("http://example.com/a/b.m3u8", "//cdn.example/x.ts"),
        "http://cdn.example/x.ts"
    );
}

#[test]
fn authority_with_empty_base_path() {
    assert_eq!(resolve("http://h", "x.ts"), "http://h/x.ts");
}

#[test]
fn construct_absolute_uri_matches_resolve() {
    assert_eq!(
        cau("http://example.com/a/b.m3u8", "c.ts"),
        "http://example.com/a/c.ts"
    );
}

#[test]
fn resolve_uris_is_cross_product_in_order() {
    let bases = vec![
        "http://one.example/a/p.m3u8".to_string(),
        "http://two.example/b/p.m3u8".to_string(),
    ];
    let refs = vec!["r1.ts".to_string(), "r2.ts".to_string()];
    let out = ManifestTextParser::resolve_uris(bases, refs);
    assert_eq!(
        out,
        vec![
            "http://one.example/a/r1.ts".to_string(),
            "http://one.example/a/r2.ts".to_string(),
            "http://two.example/b/r1.ts".to_string(),
            "http://two.example/b/r2.ts".to_string(),
        ]
    );
}

#[test]
fn resolve_uris_single_base_keeps_reference_order() {
    let bases = vec!["http://h/a/p.m3u8".to_string()];
    let refs = vec!["r1.ts".to_string(), "r2.ts".to_string()];
    let out = ManifestTextParser::resolve_uris(bases, refs);
    assert_eq!(out.len(), 2);
    assert_eq!(out[0], resolve("http://h/a/p.m3u8", "r1.ts"));
    assert_eq!(out[1], resolve("http://h/a/p.m3u8", "r2.ts"));
}

#[test]
fn resolve_uris_empty_inputs() {
    let out = ManifestTextParser::resolve_uris(vec![], vec!["r.ts".to_string()]);
    assert!(out.is_empty());
    let out2 = ManifestTextParser::resolve_uris(vec!["http://h/p".to_string()], vec![]);
    assert!(out2.is_empty());
}

#[test]
fn dot_dot_reference_yields_directory() {
    assert_eq!(resolve("http://h/a/b/c", ".."), "http://h/a/");
    assert_eq!(resolve("http://h/a/b/c", "."), "http://h/a/b/");
}

#[test]
fn excess_dot_dot_segments_stop_at_root() {
    assert_eq!(resolve("http://h/a/b", "../../../x"), "http://h/x");
}

#[test]
fn fragment_only_reference_keeps_base() {
    assert_eq!(resolve("http://h/a/c.m3u8?q=1", "#frag"), "http://h/a/c.m3u8?q=1#frag");
}

#[test]
fn query_only_reference_replaces_query() {
    assert_eq!(resolve("http://h/a/c.m3u8?q=1", "?q=2"), "http://h/a/c.m3u8?q=2");
}
