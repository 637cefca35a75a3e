use eueoeo::algos::eueoeo::Handler;
use eueoeo::algos::{create, validate_feed_request, XrpcError};
use eueoeo::data::{Post, PostIndex};
use eueoeo::lexicon::feed::QueryParams;
use eueoeo::strutil::{bytes_to_base32, i64_to_dec, str_parse_i64, u64_to_dec};

fn row(uri: &str, cid: &str, t: i64) -> Post {
    Post {
        uri: uri.to_string(),
        cid: cid.to_string(),
        author: "did:ex:a".to_string(),
        indexed_at: t,
    }
}

fn filled_index() -> PostIndex {
    let mut ix = PostIndex::new();
    ix.upsert(row("at://a/p/1", "bcid1", 100));
    ix.upsert(row("at://a/p/2", "bcid2", 200));
    ix.upsert(row("at://a/p/3", "bcid3", 300));
    ix.upsert(row("at://a/p/4", "bcid4", 400));
    // a tie on time, broken by the content identifier, descending
    ix.upsert(row("at://a/p/5", "bcid9", 400));
    ix
}

fn params(limit: u32, cursor: Option<&str>) -> QueryParams {
    QueryParams {
        feed: "at://pub/app.bsky.feed.generator/eueoeo".to_string(),
        limit,
        cursor: cursor.map(|c| c.to_string()),
    }
}

#[test]
fn first_page_returns_newest_two() {
    let ix = filled_index();
    let out = Handler.handle(&ix, &params(2, None)).unwrap();
    let uris: Vec<&str> = out.feed.iter().map(|f| f.post.as_str()).collect();
    assert_eq!(uris, vec!["at://a/p/5", "at://a/p/4"]);
    assert_eq!(out.cursor.as_deref(), Some("400::bcid4"));
}

#[test]
fn second_page_continues_without_overlap() {
    let ix = filled_index();
    let first = Handler.handle(&ix, &params(2, None)).unwrap();
    let cursor = first.cursor.unwrap();
    let second = Handler.handle(&ix, &params(2, Some(&cursor))).unwrap();
    let uris: Vec<&str> = second.feed.iter().map(|f| f.post.as_str()).collect();
    assert_eq!(uris, vec!["at://a/p/3", "at://a/p/2"]);
    for f in &second.feed {
        assert!(!first.feed.iter().any(|g| g.post == f.post));
    }
    let third = Handler
        .handle(&ix, &params(2, Some(second.cursor.as_deref().unwrap())))
        .unwrap();
    let uris: Vec<&str> = third.feed.iter().map(|f| f.post.as_str()).collect();
    assert_eq!(uris, vec!["at://a/p/1"]);
    let fourth = Handler
        .handle(&ix, &params(2, Some(third.cursor.as_deref().unwrap())))
        .unwrap();
    assert!(fourth.feed.is_empty());
    assert_eq!(fourth.cursor, None);
}

#[test]
fn empty_index_serves_an_empty_page() {
    let ix = PostIndex::new();
    let out = Handler.handle(&ix, &params(10, None)).unwrap();
    assert!(out.feed.is_empty());
    assert_eq!(out.cursor, None);
}

#[test]
fn malformed_cursors_are_invalid_requests() {
    let ix = filled_index();
    for c in ["", "abc", "12:34", "xx::yy", "::cid"] {
        assert_eq!(
            Handler.handle(&ix, &params(2, Some(c))).unwrap_err(),
            XrpcError::InvalidRequest
        );
    }
    // a numeric time with an empty identifier part is well-formed
    assert!(Handler.handle(&ix, &params(2, Some("400::"))).is_ok());
}

#[test]
fn request_validation() {
    let names = create();
    assert_eq!(names.len(), 1);
    assert_eq!(names[0], "eueoeo");
    assert_eq!(Handler.short_name(), "eueoeo");

    assert_eq!(
        validate_feed_request("at://pub/app.bsky.feed.generator/eueoeo", "pub", &names),
        Ok(0)
    );
    assert_eq!(
        validate_feed_request("nonsense", "pub", &names),
        Err(XrpcError::InvalidRequest)
    );
    assert_eq!(
        validate_feed_request("at://other/app.bsky.feed.generator/eueoeo", "pub", &names),
        Err(XrpcError::UnsupportedAlgorithm)
    );
    assert_eq!(
        validate_feed_request("at://pub/app.bsky.feed.post/eueoeo", "pub", &names),
        Err(XrpcError::UnsupportedAlgorithm)
    );
    assert_eq!(
        validate_feed_request("at://pub/app.bsky.feed.generator/other", "pub", &names),
        Err(XrpcError::UnsupportedAlgorithm)
    );
    assert_eq!(
        validate_feed_request("at://pub/app.bsky.feed.generator", "pub", &names),
        Err(XrpcError::UnsupportedAlgorithm)
    );
}

#[test]
fn index_upsert_is_idempotent_and_delete_is_final() {
    let mut ix = PostIndex::new();
    assert!(ix.upsert(row("at://a/p/1", "c1", 1)));
    assert!(!ix.upsert(row("at://a/p/1", "c2", 2)));
    assert_eq!(ix.len(), 1);
    // the first insert wins
    assert_eq!(ix.snapshot()[0].cid, "c1");
    ix.delete("at://a/p/1");
    assert_eq!(ix.len(), 0);
    // deleting an absent row is not an error
    ix.delete("at://a/p/1");
    assert_eq!(ix.len(), 0);
}

#[test]
fn base32_rendering() {
    assert_eq!(bytes_to_base32(&vec![]), "b");
    assert_eq!(bytes_to_base32(&vec![0x66, 0x6f, 0x6f]), "bmzxw6");
    assert_eq!(bytes_to_base32(&vec![0x66]), "bmy");
    assert_eq!(bytes_to_base32(&vec![0x00]), "baa");
}

#[test]
fn decimal_rendering_and_parsing() {
    assert_eq!(u64_to_dec(0), "0");
    assert_eq!(u64_to_dec(1234567890), "1234567890");
    assert_eq!(i64_to_dec(-42), "-42");
    assert_eq!(i64_to_dec(7), "7");
    assert_eq!(str_parse_i64("-42"), Some(-42));
    assert_eq!(str_parse_i64("0"), Some(0));
    assert_eq!(str_parse_i64("9223372036854775807"), Some(i64::MAX));
    assert_eq!(str_parse_i64("9223372036854775808"), None);
    assert_eq!(str_parse_i64(""), None);
    assert_eq!(str_parse_i64("12x"), None);
    assert_eq!(str_parse_i64("--1"), None);
}
