use eueoeo::lexicon::repo::StrongRef;
use eueoeo::lexicon::{AtUri, AtUriParseError};

#[test]
fn test_parse_strong_ref() {
    assert_eq!(
        StrongRef::from_json(r#"{"cid":"","uri":"at://example.com"}"#).unwrap(),
        StrongRef::Valid {
            uri: AtUri {
                authority: "example.com".to_string(),
                collection: None,
                rkey: None
            },
            cid: "".to_string(),
        }
    );

    assert_eq!(
        StrongRef::from_json(
            r#"{"$type":"com.atproto.repo.strongRef","cid":"","uri":"at://example.com"}"#
        )
        .unwrap(),
        StrongRef::Valid {
            uri: AtUri {
                authority: "example.com".to_string(),
                collection: None,
                rkey: None
            },
            cid: "".to_string(),
        }
    );

    assert_eq!(
        StrongRef::from_json(r#"{"cid":"","uri":""}"#).unwrap(),
        StrongRef::Invalid
    );
}

#[test]
fn strong_ref_strictness() {
    // unknown field
    assert!(StrongRef::from_json(r#"{"cid":"x","uri":"at://a","extra":1}"#).is_none());
    // wrong $type
    assert!(StrongRef::from_json(r#"{"$type":"other","cid":"x","uri":"at://a"}"#).is_none());
    // missing uri
    assert!(StrongRef::from_json(r#"{"cid":"x"}"#).is_none());
    // missing cid
    assert!(StrongRef::from_json(r#"{"uri":"at://a"}"#).is_none());
    // not an object
    assert!(StrongRef::from_json("[1,2]").is_none());
    // non-string cid value
    assert!(StrongRef::from_json(r#"{"cid":7,"uri":"at://a"}"#).is_none());
}

#[test]
fn strong_ref_valid_full_uri() {
    let r = StrongRef::from_json(r#"{"cid":"x","uri":"at://did:ex:a/app.bsky.feed.post/k1"}"#)
        .unwrap();
    match r {
        StrongRef::Valid { uri, cid } => {
            assert_eq!(cid, "x");
            assert_eq!(uri.authority, "did:ex:a");
            assert_eq!(uri.collection.as_deref(), Some("app.bsky.feed.post"));
            assert_eq!(uri.rkey.as_deref(), Some("k1"));
        }
        StrongRef::Invalid => panic!("expected a valid reference"),
    }
}

#[test]
fn at_uri_round_trip() {
    let cases = [
        "at://example.com",
        "at://did:plc:abc/app.bsky.feed.post",
        "at://did:plc:abc/app.bsky.feed.post/3kabc",
        "at://",
        "at://a//b",
        "at://did:plc:abc/coll/key/with/slashes",
    ];
    for s in cases {
        let v = AtUri::parse(s).unwrap();
        assert_eq!(v.to_string(), *s);
        let again = AtUri::parse(&v.to_string()).unwrap();
        assert_eq!(again, v);
    }
}

#[test]
fn at_uri_rejects_missing_prefix() {
    for s in ["", "at:/x", "http://example.com", "At://x", "at:!!"] {
        assert_eq!(
            AtUri::parse(s).unwrap_err(),
            AtUriParseError::InvalidProtocolPrefix
        );
    }
}

#[test]
fn at_uri_parse_splits() {
    let v = AtUri::parse("at://auth/coll/key").unwrap();
    assert_eq!(v.authority, "auth");
    assert_eq!(v.collection.as_deref(), Some("coll"));
    assert_eq!(v.rkey.as_deref(), Some("key"));

    let v = AtUri::parse("at://auth/coll").unwrap();
    assert_eq!(v.authority, "auth");
    assert_eq!(v.collection.as_deref(), Some("coll"));
    assert_eq!(v.rkey, None);
}

#[test]
fn with_auth_path_matches_parse() {
    let direct = AtUri::with_auth_path("did:ex:a".to_string(), "coll/key".to_string());
    let parsed = AtUri::parse("at://did:ex:a/coll/key").unwrap();
    assert_eq!(direct.to_string(), parsed.to_string());
    assert_eq!(direct.to_string(), "at://did:ex:a/coll/key");

    let deep = AtUri::with_auth_path("a".to_string(), "c/k/extra".to_string());
    assert_eq!(deep.to_string(), "at://a/c/k/extra");
    assert_eq!(deep.rkey.as_deref(), Some("k/extra"));
}

#[test]
fn at_uri_constructors() {
    let v = AtUri::new("a".to_string(), Some("c".to_string()), None);
    assert_eq!(v.to_string(), "at://a/c");
    let v = AtUri::with_auth("b".to_string());
    assert_eq!(v.to_string(), "at://b");
    // a record key without a collection is not rendered
    let v = AtUri::new("a".to_string(), None, Some("k".to_string()));
    assert_eq!(v.to_string(), "at://a");
}
