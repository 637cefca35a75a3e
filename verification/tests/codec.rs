use eueoeo::atproto_subscription::{FirehoseSubscription, MessageError};
use eueoeo::cbor::{parse_all, Cbor};
use eueoeo::lexicon::subscribe_repos::{EventParseError, OutputSchema, Record};
use eueoeo::subscription::ServiceSubscriptionHandler;

// --- minimal DAG-CBOR writers for building test vectors ---

fn head(major: u8, n: u64) -> Vec<u8> {
    if n < 24 {
        vec![(major << 5) | (n as u8)]
    } else if n < 0x100 {
        vec![(major << 5) | 24, n as u8]
    } else if n < 0x10000 {
        vec![(major << 5) | 25, (n >> 8) as u8, n as u8]
    } else {
        let mut out = vec![(major << 5) | 26];
        out.extend_from_slice(&(n as u32).to_be_bytes());
        out
    }
}

fn uint(n: u64) -> Vec<u8> {
    head(0, n)
}

fn nint(n: u64) -> Vec<u8> {
    // the integer -1 - n
    head(1, n)
}

fn txt(s: &str) -> Vec<u8> {
    let mut out = head(3, s.len() as u64);
    out.extend_from_slice(s.as_bytes());
    out
}

fn byt(b: &[u8]) -> Vec<u8> {
    let mut out = head(2, b.len() as u64);
    out.extend_from_slice(b);
    out
}

fn arr(items: &[Vec<u8>]) -> Vec<u8> {
    let mut out = head(4, items.len() as u64);
    for i in items {
        out.extend_from_slice(i);
    }
    out
}

fn map(entries: &[(&str, Vec<u8>)]) -> Vec<u8> {
    let mut out = head(5, entries.len() as u64);
    for (k, v) in entries {
        out.extend_from_slice(&txt(k));
        out.extend_from_slice(v);
    }
    out
}

fn link(cid: &[u8]) -> Vec<u8> {
    let mut out = head(6, 42);
    let mut inner = vec![0u8];
    inner.extend_from_slice(cid);
    out.extend_from_slice(&byt(&inner));
    out
}

fn simple(v: u8) -> Vec<u8> {
    vec![(7 << 5) | v]
}

fn header(op_ok: bool, tag: &str) -> Vec<u8> {
    let op = if op_ok { uint(1) } else { nint(0) };
    map(&[("op", op), ("t", txt(tag))])
}

fn identity_body(seq: u64, did: &str) -> Vec<u8> {
    map(&[
        ("seq", uint(seq)),
        ("time", txt("2024-01-01T00:00:00Z")),
        ("did", txt(did)),
    ])
}

type Sub = FirehoseSubscription<ServiceSubscriptionHandler>;

#[test]
fn parse_identity_envelope() {
    let mut frame = header(true, "#identity");
    frame.extend_from_slice(&identity_body(7, "did:ex:alice"));
    match Sub::parse_message(&frame).unwrap() {
        OutputSchema::Identity(e) => {
            assert_eq!(e._common.seq, 7);
            assert_eq!(e._common.time, "2024-01-01T00:00:00Z");
            assert_eq!(e.did, "did:ex:alice");
            assert_eq!(e.handle, None);
        }
        _ => panic!("wrong event kind"),
    }
}

#[test]
fn stream_error_envelope_carries_error_type() {
    let mut frame = header(false, "#commit");
    frame.extend_from_slice(&map(&[
        ("error", txt("FutureCursor")),
        ("message", txt("cursor is ahead")),
    ]));
    match Sub::parse_message(&frame).unwrap_err() {
        MessageError::StreamError(e) => {
            assert_eq!(e.error_type, "FutureCursor");
            assert_eq!(e.message.as_deref(), Some("cursor is ahead"));
            let d = MessageError::StreamError(e).describe();
            assert!(d.contains("FutureCursor"));
        }
        other => panic!("expected a stream error, got {:?}", other),
    }
}

#[test]
fn unknown_tag_is_named() {
    let mut frame = header(true, "#mystery");
    frame.extend_from_slice(&identity_body(1, "did:ex:a"));
    match Sub::parse_message(&frame).unwrap_err() {
        MessageError::InvalidEvent(EventParseError::UnknownTag(t)) => {
            assert_eq!(t, "#mystery");
            let d = MessageError::InvalidEvent(EventParseError::UnknownTag(t)).describe();
            assert!(d.contains("#mystery"));
        }
        other => panic!("expected an unknown tag, got {:?}", other),
    }
}

#[test]
fn empty_body_is_rejected() {
    let frame = header(true, "#identity");
    assert!(matches!(
        Sub::parse_message(&frame).unwrap_err(),
        MessageError::EmptyBody
    ));
    let frame = header(false, "#commit");
    assert!(matches!(
        Sub::parse_message(&frame).unwrap_err(),
        MessageError::EmptyBody
    ));
}

#[test]
fn malformed_header_is_rejected() {
    assert!(matches!(
        Sub::parse_message(&vec![]).unwrap_err(),
        MessageError::InvalidHeader
    ));
    // op = 2 is neither ok nor error
    let mut frame = map(&[("op", uint(2)), ("t", txt("#identity"))]);
    frame.extend_from_slice(&identity_body(1, "d"));
    assert!(matches!(
        Sub::parse_message(&frame).unwrap_err(),
        MessageError::InvalidHeader
    ));
}

#[test]
fn other_event_kinds_decode() {
    let mut frame = header(true, "#account");
    frame.extend_from_slice(&map(&[
        ("seq", uint(9)),
        ("time", txt("t")),
        ("did", txt("did:ex:b")),
        ("active", simple(20)),
        ("status", txt("takendown")),
    ]));
    match Sub::parse_message(&frame).unwrap() {
        OutputSchema::Account(a) => {
            assert!(!a.active);
            assert_eq!(a.status.as_deref(), Some("takendown"));
        }
        _ => panic!("wrong event kind"),
    }

    let mut frame = header(true, "#tombstone");
    frame.extend_from_slice(&map(&[
        ("seq", uint(10)),
        ("time", txt("t")),
        ("did", txt("did:ex:c")),
    ]));
    assert!(matches!(
        Sub::parse_message(&frame).unwrap(),
        OutputSchema::Tombstone(_)
    ));

    let mut frame = header(true, "#info");
    frame.extend_from_slice(&map(&[
        ("name", txt("OutDatedCursor")),
        ("message", simple(22)),
    ]));
    match Sub::parse_message(&frame).unwrap() {
        OutputSchema::Info(i) => assert_eq!(i.message, None),
        _ => panic!("wrong event kind"),
    }
}

#[test]
fn commit_envelope_decodes() {
    let cid = [0x11u8; 34];
    let ops = arr(&[map(&[
        ("action", txt("create")),
        ("path", txt("app.bsky.feed.post/3k1")),
        ("cid", link(&cid)),
    ])]);
    let body = map(&[
        ("seq", uint(40)),
        ("time", txt("t")),
        ("rebase", simple(20)),
        ("tooBig", simple(20)),
        ("repo", txt("did:ex:a")),
        ("commit", link(&cid)),
        ("rev", txt("r1")),
        ("since", simple(22)),
        ("blocks", byt(&[1, 2, 3])),
        ("ops", ops),
        ("blobs", arr(&[])),
    ]);
    let mut frame = header(true, "#commit");
    frame.extend_from_slice(&body);
    match Sub::parse_message(&frame).unwrap() {
        OutputSchema::Commit(c) => {
            assert_eq!(c._common.seq, 40);
            assert_eq!(c.repo, "did:ex:a");
            assert_eq!(c.prev, None);
            assert_eq!(c.since, None);
            assert_eq!(c.ops.len(), 1);
            assert_eq!(c.ops[0].path, "app.bsky.feed.post/3k1");
            assert_eq!(c.ops[0].cid.as_deref(), Some(&cid[..]));
            assert!(c.blocks.is_some());
        }
        _ => panic!("wrong event kind"),
    }
}

#[test]
fn commit_with_missing_field_is_invalid() {
    // no "rev"
    let body = map(&[
        ("seq", uint(40)),
        ("time", txt("t")),
        ("rebase", simple(20)),
        ("tooBig", simple(20)),
        ("repo", txt("did:ex:a")),
        ("ops", arr(&[])),
        ("blobs", arr(&[])),
    ]);
    let mut frame = header(true, "#commit");
    frame.extend_from_slice(&body);
    assert!(matches!(
        Sub::parse_message(&frame).unwrap_err(),
        MessageError::InvalidEvent(EventParseError::InvalidBody)
    ));
}

#[test]
fn generic_values_decode() {
    let v = parse_all(&txt("hi")).unwrap();
    match v {
        Cbor::Text(t) => assert_eq!(t, "hi"),
        _ => panic!("expected text"),
    }
    // trailing bytes are rejected
    let mut t = txt("hi");
    t.push(0);
    assert!(parse_all(&t).is_none());
    // invalid UTF-8 text is rejected
    let bad = vec![(3 << 5) | 1, 0xff];
    assert!(parse_all(&bad).is_none());
    // indefinite lengths are rejected
    assert!(parse_all(&vec![0x5f]).is_none());
    // floats are outside the subset
    assert!(parse_all(&vec![0xfb, 0, 0, 0, 0, 0, 0, 0, 0]).is_none());
    // nesting
    let v = parse_all(&arr(&[uint(1), arr(&[nint(0)]), simple(21)])).unwrap();
    match v {
        Cbor::List(items) => {
            assert_eq!(items.len(), 3);
            assert!(matches!(items[0], Cbor::UInt(1)));
            assert!(matches!(items[2], Cbor::Boolean(true)));
        }
        _ => panic!("expected a list"),
    }
}

#[test]
fn decoder_agrees_with_reference_encoder() {
    let mut m = std::collections::BTreeMap::new();
    m.insert("alpha".to_string(), 1u64);
    m.insert("beta".to_string(), 23u64);
    m.insert("gamma".to_string(), 70000u64);
    let bytes = serde_ipld_dagcbor::to_vec(&m).unwrap();
    match parse_all(&bytes).unwrap() {
        Cbor::Dict(entries) => {
            // the reference encoder writes keys in canonical order:
            // shorter first, then lexicographic
            assert_eq!(entries.len(), 3);
            assert_eq!(entries[0].0, "beta");
            assert!(matches!(entries[0].1, Cbor::UInt(23)));
            assert_eq!(entries[1].0, "alpha");
            assert!(matches!(entries[1].1, Cbor::UInt(1)));
            assert_eq!(entries[2].0, "gamma");
            assert!(matches!(entries[2].1, Cbor::UInt(70000)));
        }
        _ => panic!("expected a map"),
    }

    let v: Vec<i64> = vec![-1, -500];
    let bytes = serde_ipld_dagcbor::to_vec(&v).unwrap();
    match parse_all(&bytes).unwrap() {
        Cbor::List(items) => {
            assert!(matches!(items[0], Cbor::NInt(0)));
            assert!(matches!(items[1], Cbor::NInt(499)));
        }
        _ => panic!("expected a list"),
    }
}

#[test]
fn record_three_tier_reading() {
    // a post record block
    let post = map(&[
        ("$type", txt("app.bsky.feed.post")),
        ("text", txt("hello")),
        ("createdAt", txt("t")),
    ]);
    match Record::from_cbor_value(&parse_all(&post).unwrap()).unwrap() {
        Record::Post(p) => assert_eq!(p.text, "hello"),
        _ => panic!("expected a post"),
    }

    // an unknown kind is kept as Unknown
    let other = map(&[("$type", txt("app.bsky.actor.profile"))]);
    assert!(matches!(
        Record::from_cbor_value(&parse_all(&other).unwrap()).unwrap(),
        Record::Unknown
    ));

    // a map without $type is a shape error
    let shapeless = map(&[("text", txt("x"))]);
    assert!(Record::from_cbor_value(&parse_all(&shapeless).unwrap()).is_none());

    // follow and repost kinds
    let follow = map(&[
        ("$type", txt("app.bsky.graph.follow")),
        ("subject", txt("did:ex:b")),
        ("createdAt", txt("t")),
    ]);
    match Record::from_cbor_value(&parse_all(&follow).unwrap()).unwrap() {
        Record::Follow(f) => assert_eq!(f.subject, "did:ex:b"),
        _ => panic!("expected a follow"),
    }

    let repost = map(&[
        ("$type", txt("app.bsky.feed.repost")),
        ("subject", map(&[("cid", txt("x")), ("uri", txt("at://e.com"))])),
        ("createdAt", txt("t")),
    ]);
    match Record::from_cbor_value(&parse_all(&repost).unwrap()).unwrap() {
        Record::RePost(r) => match r.subject {
            eueoeo::lexicon::repo::StrongRef::Valid { uri, cid } => {
                assert_eq!(uri.authority, "e.com");
                assert_eq!(cid, "x");
            }
            _ => panic!("expected a valid reference"),
        },
        _ => panic!("expected a repost"),
    }
}
