use eueoeo::lexicon::subscribe_repos::{CommitBlockParseError, CommitRawBlocks, Record};

fn head(major: u8, n: u64) -> Vec<u8> {
    if n < 24 {
        vec![(major << 5) | (n as u8)]
    } else {
        vec![(major << 5) | 24, n as u8]
    }
}

fn uint(n: u64) -> Vec<u8> {
    head(0, n)
}

fn txt(s: &str) -> Vec<u8> {
    let mut out = head(3, s.len() as u64);
    out.extend_from_slice(s.as_bytes());
    out
}

fn map(entries: &[(&str, Vec<u8>)]) -> Vec<u8> {
    let mut out = head(5, entries.len() as u64);
    for (k, v) in entries {
        out.extend_from_slice(&txt(k));
        out.extend_from_slice(v);
    }
    out
}

fn varint(mut n: u64) -> Vec<u8> {
    let mut out = Vec::new();
    loop {
        if n < 0x80 {
            out.push(n as u8);
            return out;
        }
        out.push((n & 0x7f) as u8 | 0x80);
        n >>= 7;
    }
}

fn car(blocks: &[(Vec<u8>, Vec<u8>)]) -> Vec<u8> {
    let hdr = map(&[("version", uint(1))]);
    let mut out = varint(hdr.len() as u64);
    out.extend_from_slice(&hdr);
    for (cid, data) in blocks {
        out.extend_from_slice(&varint((cid.len() + data.len()) as u64));
        out.extend_from_slice(cid);
        out.extend_from_slice(data);
    }
    out
}

fn cid_v0(tag: u8) -> Vec<u8> {
    let mut c = vec![0x12, 0x20];
    c.extend_from_slice(&[tag; 32]);
    c
}

fn cid_v1(tag: u8) -> Vec<u8> {
    // version 1, dag-cbor codec, sha2-256, 32-byte digest
    let mut c = vec![0x01, 0x71, 0x12, 0x20];
    c.extend_from_slice(&[tag; 32]);
    c
}

#[test]
fn archive_decodes_and_looks_up_blocks() {
    let c0 = cid_v0(1);
    let c1 = cid_v1(2);
    let post = map(&[
        ("$type", txt("app.bsky.feed.post")),
        ("text", txt("hello")),
    ]);
    let other = txt("just text, not a record");
    let raw = CommitRawBlocks(car(&[(c0.clone(), post), (c1.clone(), other)]));
    let blocks = raw.parse().unwrap();

    let keys = blocks.keys();
    assert_eq!(keys.len(), 2);
    assert_eq!(keys[0], c0);
    assert_eq!(keys[1], c1);

    match blocks.get(&c0).unwrap().unwrap() {
        Record::Post(p) => assert_eq!(p.text, "hello"),
        _ => panic!("expected a post"),
    }

    // the second block is well-formed but not a record shape
    match blocks.get(&c1).unwrap().unwrap_err() {
        CommitBlockParseError::InvalidParseTargetType(_) => {}
        other => panic!("expected a shape error, got {:?}", other),
    }

    // an unknown identifier is absent, not an error
    assert!(blocks.get(&cid_v0(9)).is_none());
}

#[test]
fn undecodable_block_bytes_are_reported_raw() {
    let c0 = cid_v0(3);
    let garbage = vec![0xff, 0x00, 0x01];
    let raw = CommitRawBlocks(car(&[(c0.clone(), garbage.clone())]));
    let blocks = raw.parse().unwrap();
    match blocks.get(&c0).unwrap().unwrap_err() {
        CommitBlockParseError::UnknownError(b) => assert_eq!(b, garbage),
        other => panic!("expected raw bytes, got {:?}", other),
    }
}

#[test]
fn later_duplicate_identifier_wins() {
    let c0 = cid_v0(4);
    let first = txt("first");
    let second = map(&[
        ("$type", txt("app.bsky.feed.post")),
        ("text", txt("second")),
    ]);
    let raw = CommitRawBlocks(car(&[(c0.clone(), first), (c0.clone(), second)]));
    let blocks = raw.parse().unwrap();
    match blocks.get(&c0).unwrap().unwrap() {
        Record::Post(p) => assert_eq!(p.text, "second"),
        _ => panic!("expected the later block"),
    }
}

#[test]
fn bad_archives_are_rejected() {
    // truncated varint prefix
    assert!(CommitRawBlocks(vec![0x80]).parse().is_err());
    // header is not a version-1 map
    let hdr = map(&[("version", uint(2))]);
    let mut bytes = varint(hdr.len() as u64);
    bytes.extend_from_slice(&hdr);
    assert!(CommitRawBlocks(bytes).parse().is_err());
    // a section shorter than its declared length
    let hdr = map(&[("version", uint(1))]);
    let mut bytes = varint(hdr.len() as u64);
    bytes.extend_from_slice(&hdr);
    bytes.extend_from_slice(&varint(100));
    bytes.push(0x12);
    assert!(CommitRawBlocks(bytes).parse().is_err());
    // an empty archive with a valid header holds no blocks
    let hdr = map(&[("version", uint(1))]);
    let mut bytes = varint(hdr.len() as u64);
    bytes.extend_from_slice(&hdr);
    let blocks = CommitRawBlocks(bytes).parse().unwrap();
    assert!(blocks.keys().is_empty());
}
