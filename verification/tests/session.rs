use eueoeo::atproto_subscription::{
    classify, FailureStage, FirehoseSubscription, FrameOutcome, SessionDirective, SessionPhase,
    SubscriptionError, RETRY_DELAY_SECS,
};
use eueoeo::subscription::ServiceSubscriptionHandler;

fn session(cursor: Option<u64>) -> FirehoseSubscription<ServiceSubscriptionHandler> {
    FirehoseSubscription::new(
        "wss://bsky.example".to_string(),
        cursor,
        ServiceSubscriptionHandler::new("t".to_string()),
    )
}

fn head(major: u8, n: u64) -> Vec<u8> {
    if n < 24 {
        vec![(major << 5) | (n as u8)]
    } else {
        vec![(major << 5) | 24, n as u8]
    }
}

fn txt(s: &str) -> Vec<u8> {
    let mut out = head(3, s.len() as u64);
    out.extend_from_slice(s.as_bytes());
    out
}

fn map(entries: &[(&str, Vec<u8>)]) -> Vec<u8> {
    let mut out = head(5, entries.len() as u64);
    for (k, v) in entries {
        out.extend_from_slice(&txt(k));
        out.extend_from_slice(v);
    }
    out
}

fn commit_frame(seq: u64) -> Vec<u8> {
    let mut frame = map(&[("op", head(0, 1)), ("t", txt("#commit"))]);
    frame.extend_from_slice(&map(&[
        ("seq", head(0, seq)),
        ("time", txt("t")),
        ("rebase", vec![0xf4]),
        ("tooBig", vec![0xf4]),
        ("repo", txt("did:ex:a")),
        ("commit", {
            let mut link = head(6, 42);
            let mut inner = vec![0u8, 0x12, 0x20];
            inner.extend_from_slice(&[9u8; 32]);
            link.extend_from_slice(&head(2, inner.len() as u64));
            link.extend_from_slice(&inner);
            link
        }),
        ("rev", txt("r")),
        ("ops", head(4, 0)),
        ("blobs", head(4, 0)),
    ]));
    frame
}

#[test]
fn classification_by_stage() {
    for stage in [
        FailureStage::UrlConstruction,
        FailureStage::CursorLoad,
        FailureStage::Connect,
    ] {
        assert!(matches!(
            classify(stage, "m".to_string()),
            SubscriptionError::Fatal(_)
        ));
    }
    for stage in [
        FailureStage::Receive,
        FailureStage::Decode,
        FailureStage::Handler,
        FailureStage::CursorWrite,
    ] {
        assert!(matches!(
            classify(stage, "m".to_string()),
            SubscriptionError::Recoverable(_)
        ));
    }
    assert_eq!(
        SubscriptionError::fatal("x".to_string()),
        SubscriptionError::Fatal("x".to_string())
    );
    assert_eq!(
        SubscriptionError::recoverable("x".to_string()),
        SubscriptionError::Recoverable("x".to_string())
    );
}

#[test]
fn url_building_resumes_from_cursor() {
    let mut s = session(None);
    let url = s.begin_connect().unwrap();
    assert_eq!(url, "wss://bsky.example/xrpc/com.atproto.sync.subscribeRepos");
    assert_eq!(s.phase, SessionPhase::Connecting);

    let mut s = session(Some(42));
    let url = s.begin_connect().unwrap();
    assert_eq!(
        url,
        "wss://bsky.example/xrpc/com.atproto.sync.subscribeRepos?cursor=42"
    );
}

#[test]
fn unusable_base_url_is_fatal() {
    let mut s = FirehoseSubscription::new(
        "not a url".to_string(),
        None,
        ServiceSubscriptionHandler::new("t".to_string()),
    );
    assert!(matches!(s.begin_connect(), Err(SubscriptionError::Fatal(_))));
}

#[test]
fn fatal_failure_terminates_once_and_signals_shutdown() {
    let mut s = session(None);
    let e = SubscriptionError::Fatal("connect refused".to_string());
    let d = s.on_failure(&e);
    assert_eq!(d, SessionDirective::Terminate);
    assert!(s.shutdown_signaled);
    assert_eq!(s.phase, SessionPhase::Stopped);
    // the stopped phase is terminal: the loop observes it and never retries
    assert!(!s.should_run());
}

#[test]
fn recoverable_failure_backs_off_and_retries_without_signaling() {
    let mut s = session(None);
    let e = SubscriptionError::Recoverable("dropped".to_string());
    let d = s.on_failure(&e);
    assert_eq!(d, SessionDirective::Backoff(RETRY_DELAY_SECS));
    assert_eq!(RETRY_DELAY_SECS, 5);
    assert!(!s.shutdown_signaled);
    assert_eq!(s.phase, SessionPhase::Disconnected);
    assert!(s.should_run());
    // the retry reconnects from the persisted cursor
    assert!(s.begin_connect().is_ok());
    assert_eq!(s.phase, SessionPhase::Connecting);
}

#[test]
fn frames_checkpoint_on_the_interval() {
    let mut s = session(None);
    s.begin_connect().unwrap();
    s.on_connected();
    assert_eq!(s.phase, SessionPhase::Streaming);

    // a commit off the interval does not move the cursor
    assert!(matches!(
        s.on_frame(&commit_frame(41)),
        FrameOutcome::Handled
    ));
    assert_eq!(s.cursor, None);

    // a commit on the interval checkpoints its sequence number
    match s.on_frame(&commit_frame(60)) {
        FrameOutcome::HandledCheckpoint(seq) => assert_eq!(seq, 60),
        other => panic!("expected a checkpoint, got {:?}", other),
    }
    assert_eq!(s.cursor, Some(60));
}

#[test]
fn undecodable_frames_are_recoverable() {
    let mut s = session(None);
    s.begin_connect().unwrap();
    s.on_connected();
    match s.on_frame(&vec![0xff, 0x00]) {
        FrameOutcome::Failed(SubscriptionError::Recoverable(_)) => {}
        other => panic!("expected a recoverable failure, got {:?}", other),
    }
    assert_eq!(s.cursor, None);
}

#[test]
fn stop_request_exits_cleanly() {
    let mut s = session(None);
    s.begin_connect().unwrap();
    s.on_connected();
    let d = s.on_stop();
    assert_eq!(d, SessionDirective::Exit);
    assert_eq!(s.phase, SessionPhase::Stopped);
    assert!(!s.shutdown_signaled);
    assert!(!s.should_run());
}

#[test]
fn stream_end_reconnects_immediately() {
    let mut s = session(Some(7));
    s.begin_connect().unwrap();
    s.on_connected();
    s.on_stream_end();
    assert_eq!(s.phase, SessionPhase::Disconnected);
    assert_eq!(s.cursor, Some(7));
}
