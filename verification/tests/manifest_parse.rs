use assetsync::json::parse_manifest;

#[test]
fn parses_minimal_manifest() {
    let text = r#"{"version":"1","assets":[{"url":"http://x/a.bin","path":"a.bin","size":4,"checksum":"sha256:aa"}]}"#;
    let m = parse_manifest(text).expect("valid manifest");
    assert_eq!(m.version, "1");
    assert_eq!(m.assets.len(), 1);
    assert_eq!(m.assets[0].url, "http://x/a.bin");
    assert_eq!(m.assets[0].path, "a.bin");
    assert_eq!(m.assets[0].size, 4);
    assert_eq!(m.assets[0].checksum.as_deref(), Some("sha256:aa"));
}

#[test]
fn parses_manifest_with_whitespace_and_order() {
    let text = " {\n\t\"assets\" : [ ] ,\r\n \"version\" : \"2.0\" } ";
    let m = parse_manifest(text).expect("valid manifest");
    assert_eq!(m.version, "2.0");
    assert_eq!(m.assets.len(), 0);
}

#[test]
fn parses_multiple_assets_in_order() {
    let text = r#"{"version":"1","assets":[
        {"url":"u1","path":"p1","size":1},
        {"url":"u2","path":"p2","size":2,"checksum":"cc"},
        {"url":"u3","path":"p3","size":3,"checksum":null}
    ]}"#;
    let m = parse_manifest(text).expect("valid manifest");
    assert_eq!(m.assets.len(), 3);
    assert_eq!(m.assets[0].path, "p1");
    assert_eq!(m.assets[1].path, "p2");
    assert_eq!(m.assets[2].path, "p3");
    assert_eq!(m.assets[0].checksum, None);
    assert_eq!(m.assets[1].checksum.as_deref(), Some("cc"));
    assert_eq!(m.assets[2].checksum, None);
}

#[test]
fn ignores_unknown_fields() {
    let text = r#"{"version":"1","note":{"a":[1,2,{"b":null}],"c":-1.5e+10},"assets":[
        {"url":"u","path":"p","size":0,"extra":true,"more":[false,"x"]}
    ],"trailing":"y"}"#;
    let m = parse_manifest(text).expect("valid manifest");
    assert_eq!(m.assets.len(), 1);
    assert_eq!(m.assets[0].size, 0);
}

#[test]
fn decodes_string_escapes() {
    let text = r#"{"version":"aA\n\"\\\/\t","assets":[]}"#;
    let m = parse_manifest(text).expect("valid manifest");
    assert_eq!(m.version, "aA\n\"\\/\t");
}

#[test]
fn decodes_surrogate_pair_escape() {
    let text = r#"{"version":"😀","assets":[]}"#;
    let m = parse_manifest(text).expect("valid manifest");
    assert_eq!(m.version, "\u{1F600}");
}

#[test]
fn rejects_lone_surrogate_escape() {
    let text = r#"{"version":"\uD83D","assets":[]}"#;
    assert!(parse_manifest(text).is_none());
}

#[test]
fn rejects_missing_required_fields() {
    assert!(parse_manifest(r#"{"version":"1"}"#).is_none());
    assert!(parse_manifest(r#"{"assets":[]}"#).is_none());
    assert!(parse_manifest(r#"{}"#).is_none());
    assert!(parse_manifest(r#"{"version":"1","assets":[{"path":"p","size":1}]}"#).is_none());
    assert!(parse_manifest(r#"{"version":"1","assets":[{"url":"u","size":1}]}"#).is_none());
    assert!(parse_manifest(r#"{"version":"1","assets":[{"url":"u","path":"p"}]}"#).is_none());
}

#[test]
fn rejects_duplicate_fields() {
    assert!(parse_manifest(r#"{"version":"1","version":"2","assets":[]}"#).is_none());
    assert!(
        parse_manifest(
            r#"{"version":"1","assets":[{"url":"u","url":"v","path":"p","size":1}]}"#
        )
        .is_none()
    );
}

#[test]
fn rejects_bad_sizes() {
    assert!(parse_manifest(r#"{"version":"1","assets":[{"url":"u","path":"p","size":-1}]}"#)
        .is_none());
    assert!(parse_manifest(r#"{"version":"1","assets":[{"url":"u","path":"p","size":1.5}]}"#)
        .is_none());
    assert!(parse_manifest(r#"{"version":"1","assets":[{"url":"u","path":"p","size":"4"}]}"#)
        .is_none());
    assert!(parse_manifest(r#"{"version":"1","assets":[{"url":"u","path":"p","size":007}]}"#)
        .is_none());
    // one past the largest 64-bit value
    assert!(
        parse_manifest(
            r#"{"version":"1","assets":[{"url":"u","path":"p","size":18446744073709551616}]}"#
        )
        .is_none()
    );
    // the largest 64-bit value itself is accepted
    let m = parse_manifest(
        r#"{"version":"1","assets":[{"url":"u","path":"p","size":18446744073709551615}]}"#,
    )
    .expect("valid manifest");
    assert_eq!(m.assets[0].size, u64::MAX);
}

#[test]
fn rejects_malformed_documents() {
    assert!(parse_manifest("").is_none());
    assert!(parse_manifest("null").is_none());
    assert!(parse_manifest("[]").is_none());
    assert!(parse_manifest(r#"{"version":"1","assets":[]} trailing"#).is_none());
    assert!(parse_manifest(r#"{"version":"1","assets":[]"#).is_none());
    assert!(parse_manifest(r#"{"version":"1","assets":[],}"#).is_none());
    assert!(parse_manifest(r#"{"version":1,"assets":[]}"#).is_none());
    assert!(parse_manifest(r#"{"version":"unterminated,"assets":[]}"#).is_none());
}

#[test]
fn decodes_bmp_unicode_escapes() {
    let text = r#"{"version":"\u0041\u00e9\u2603","assets":[]}"#;
    let m = parse_manifest(text).expect("valid manifest");
    assert_eq!(m.version, "A\u{e9}\u{2603}");
}

#[test]
fn unknown_members_have_a_nesting_limit() {
    let mut shallow = String::from("0");
    for _ in 0..10 {
        shallow = format!("[{}]", shallow);
    }
    let text = format!(r#"{{"version":"1","x":{},"assets":[]}}"#, shallow);
    assert!(parse_manifest(&text).is_some());

    let mut deep = String::from("0");
    for _ in 0..200 {
        deep = format!("[{}]", deep);
    }
    let text = format!(r#"{{"version":"1","x":{},"assets":[]}}"#, deep);
    assert!(parse_manifest(&text).is_none());
}

#[test]
fn rejects_unescaped_control_characters_in_strings() {
    let text = "{\"version\":\"a\u{1}b\",\"assets\":[]}";
    assert!(parse_manifest(text).is_none());
}
