use eueoeo::lexicon::subscribe_repos::{
    Commit, CommitRawBlocks, CommonPart, OutputSchema, RepoOp, RepoOpAction, Tombstone,
};
use eueoeo::subscription::{HandlerError, IndexOp, ServiceSubscriptionHandler};

// --- minimal DAG-CBOR and archive writers for building test vectors ---

fn head(major: u8, n: u64) -> Vec<u8> {
    if n < 24 {
        vec![(major << 5) | (n as u8)]
    } else if n < 0x100 {
        vec![(major << 5) | 24, n as u8]
    } else {
        let mut out = vec![(major << 5) | 25];
        out.extend_from_slice(&(n as u16).to_be_bytes());
        out
    }
}

fn uint(n: u64) -> Vec<u8> {
    head(0, n)
}

fn txt(s: &str) -> Vec<u8> {
    let mut out = head(3, s.len() as u64);
    out.extend_from_slice(s.as_bytes());
    out
}

fn map(entries: &[(&str, Vec<u8>)]) -> Vec<u8> {
    let mut out = head(5, entries.len() as u64);
    for (k, v) in entries {
        out.extend_from_slice(&txt(k));
        out.extend_from_slice(v);
    }
    out
}

fn varint(mut n: u64) -> Vec<u8> {
    let mut out = Vec::new();
    loop {
        if n < 0x80 {
            out.push(n as u8);
            return out;
        }
        out.push((n & 0x7f) as u8 | 0x80);
        n >>= 7;
    }
}

fn car(blocks: &[(Vec<u8>, Vec<u8>)]) -> Vec<u8> {
    let hdr = map(&[("version", uint(1))]);
    let mut out = varint(hdr.len() as u64);
    out.extend_from_slice(&hdr);
    for (cid, data) in blocks {
        out.extend_from_slice(&varint((cid.len() + data.len()) as u64));
        out.extend_from_slice(cid);
        out.extend_from_slice(data);
    }
    out
}

fn cid_v0(tag: u8) -> Vec<u8> {
    let mut c = vec![0x12, 0x20];
    c.extend_from_slice(&[tag; 32]);
    c
}

fn post_block(text: &str) -> Vec<u8> {
    map(&[
        ("$type", txt("app.bsky.feed.post")),
        ("text", txt(text)),
        ("createdAt", txt("2024-01-01T00:00:00Z")),
    ])
}

fn commit_event(seq: u64, repo: &str, ops: Vec<RepoOp>, blocks: Option<Vec<u8>>) -> OutputSchema {
    OutputSchema::Commit(Box::new(Commit {
        _common: CommonPart {
            seq,
            time: "2024-01-01T00:00:00Z".to_string(),
        },
        rebase: false,
        too_big: false,
        repo: repo.to_string(),
        commit: cid_v0(0xaa),
        prev: None,
        rev: "rev1".to_string(),
        since: None,
        blocks: blocks.map(CommitRawBlocks),
        ops,
        blobs: vec![],
    }))
}

fn create_op(path: &str, cid: Vec<u8>) -> RepoOp {
    RepoOp {
        action: RepoOpAction::Create,
        path: path.to_string(),
        cid: Some(cid),
    }
}

fn delete_op(path: &str) -> RepoOp {
    RepoOp {
        action: RepoOpAction::Delete,
        path: path.to_string(),
        cid: None,
    }
}

#[test]
fn matching_post_is_indexed() {
    let mut h = ServiceSubscriptionHandler::new("magic words".to_string());
    let cid = cid_v0(1);
    let archive = car(&[(cid.clone(), post_block("magic words"))]);
    let ev = commit_event(
        1,
        "did:ex:alice",
        vec![create_op("app.bsky.feed.post/3k1", cid)],
        Some(archive),
    );
    assert!(h.handle_event_at(&ev, 1000).is_ok());
    assert_eq!(h.index.len(), 1);
    let rows = h.index.snapshot();
    assert_eq!(rows[0].uri, "at://did:ex:alice/app.bsky.feed.post/3k1");
    assert_eq!(rows[0].author, "did:ex:alice");
    assert_eq!(rows[0].indexed_at, 1000);
    assert!(rows[0].cid.starts_with('b'));
    let pending = h.drain_pending();
    assert_eq!(pending.len(), 1);
    assert!(matches!(&pending[0], IndexOp::Insert(p) if p.indexed_at == 1000));
}

#[test]
fn non_matching_and_unknown_records_are_skipped() {
    let mut h = ServiceSubscriptionHandler::new("magic words".to_string());
    let c1 = cid_v0(1);
    let c2 = cid_v0(2);
    let other = map(&[("$type", txt("app.bsky.actor.profile"))]);
    let archive = car(&[
        (c1.clone(), post_block("different text")),
        (c2.clone(), other),
    ]);
    let ev = commit_event(
        1,
        "did:ex:a",
        vec![
            create_op("app.bsky.feed.post/a", c1),
            create_op("app.bsky.actor.profile/self", c2),
        ],
        Some(archive),
    );
    assert!(h.handle_event_at(&ev, 5).is_ok());
    assert_eq!(h.index.len(), 0);
}

#[test]
fn create_then_delete_leaves_no_row() {
    let mut h = ServiceSubscriptionHandler::new("t".to_string());
    let cid = cid_v0(3);
    let archive = car(&[(cid.clone(), post_block("t"))]);
    let ev = commit_event(
        1,
        "did:ex:a",
        vec![
            create_op("app.bsky.feed.post/k", cid),
            delete_op("app.bsky.feed.post/k"),
        ],
        Some(archive),
    );
    assert!(h.handle_event_at(&ev, 1).is_ok());
    assert_eq!(h.index.len(), 0);
}

#[test]
fn replayed_create_is_idempotent() {
    // create, create, delete across a simulated at-least-once replay
    let mut h = ServiceSubscriptionHandler::new("t".to_string());
    let cid = cid_v0(4);
    let archive = car(&[(cid.clone(), post_block("t"))]);
    let ev1 = commit_event(
        1,
        "did:ex:a",
        vec![create_op("app.bsky.feed.post/k", cid.clone())],
        Some(archive.clone()),
    );
    assert!(h.handle_event_at(&ev1, 1).is_ok());
    assert_eq!(h.index.len(), 1);
    // replay of the same create: no duplicate, no error
    let ev2 = commit_event(
        1,
        "did:ex:a",
        vec![create_op("app.bsky.feed.post/k", cid)],
        Some(archive),
    );
    assert!(h.handle_event_at(&ev2, 2).is_ok());
    assert_eq!(h.index.len(), 1);
    // the surviving row keeps its first index time
    assert_eq!(h.index.snapshot()[0].indexed_at, 1);
    // a delete travels in a commit with a (possibly empty) block archive;
    // a commit without one is a no-op
    let ev3 = commit_event(
        2,
        "did:ex:a",
        vec![delete_op("app.bsky.feed.post/k")],
        Some(car(&[])),
    );
    assert!(h.handle_event_at(&ev3, 3).is_ok());
    assert_eq!(h.index.len(), 0);
}

#[test]
fn missing_block_is_skipped_not_an_error() {
    let mut h = ServiceSubscriptionHandler::new("t".to_string());
    let present = cid_v0(5);
    let absent = cid_v0(6);
    let archive = car(&[(present, post_block("t"))]);
    let ev = commit_event(
        1,
        "did:ex:a",
        vec![create_op("app.bsky.feed.post/k", absent)],
        Some(archive),
    );
    assert!(h.handle_event_at(&ev, 1).is_ok());
    assert_eq!(h.index.len(), 0);
}

#[test]
fn update_is_a_no_op() {
    let mut h = ServiceSubscriptionHandler::new("t".to_string());
    let cid = cid_v0(7);
    let archive = car(&[(cid.clone(), post_block("t"))]);
    let ev = commit_event(
        1,
        "did:ex:a",
        vec![RepoOp {
            action: RepoOpAction::Update,
            path: "app.bsky.feed.post/k".to_string(),
            cid: Some(cid),
        }],
        Some(archive),
    );
    assert!(h.handle_event_at(&ev, 1).is_ok());
    assert_eq!(h.index.len(), 0);
}

#[test]
fn commits_without_blocks_and_other_events_are_no_ops() {
    let mut h = ServiceSubscriptionHandler::new("t".to_string());
    let ev = commit_event(1, "did:ex:a", vec![delete_op("p/k")], None);
    assert!(h.handle_event_at(&ev, 1).is_ok());
    let ev = OutputSchema::Tombstone(Tombstone {
        _common: CommonPart {
            seq: 2,
            time: "t".to_string(),
        },
        did: "did:ex:a".to_string(),
    });
    assert!(h.handle_event_at(&ev, 1).is_ok());
    assert_eq!(h.index.len(), 0);
}

#[test]
fn bad_archive_is_the_whole_commit_error() {
    let mut h = ServiceSubscriptionHandler::new("t".to_string());
    let ev = commit_event(
        1,
        "did:ex:a",
        vec![delete_op("p/k")],
        Some(vec![0xff, 0xff, 0xff]),
    );
    assert_eq!(h.handle_event_at(&ev, 1), Err(HandlerError::BlockArchive));
    assert_eq!(h.index.len(), 0);
}
