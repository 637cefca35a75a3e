//! The feed-algorithm registry and the request validation in front of it:
//! a feed is served only when its URI names this publisher, the generator
//! collection, and a registered short name.

use vstd::prelude::*;

use crate::lexicon::{parse_spec, AtUri};
use crate::strutil::str_eq;

pub mod eueoeo;

verus! {

/// The client-facing error vocabulary of the query API.
#[derive(Debug, Clone, Copy, PartialEq, Eq, Structural)]
pub enum XrpcError {
    /// A malformed feed URI or cursor.
    InvalidRequest,
    /// A feed URI that does not name a registered algorithm.
    UnsupportedAlgorithm,
    /// Any internal indexing or storage failure, never detailed to the
    /// client.
    InternalServerError,
}

/// The registered algorithm short names; registration is static.
pub fn create() -> (r: Vec<String>)
    ensures
        r@.len() == 1,
        r@[0]@ == "eueoeo"@,
{
    let mut names: Vec<String> = Vec::new();
    names.push(String::from_str("eueoeo"));
    names
}

/// Which algorithm a feed request names: the URI must parse, its
/// authority must be this publisher, its collection the feed-generator
/// collection, and its record key a registered short name. A URI that
/// does not parse is an invalid request; anything else that fails is an
/// unsupported algorithm.
pub open spec fn feed_request_spec(
    feed: Seq<char>,
    publisher_did: Seq<char>,
    names: Seq<Seq<char>>,
) -> Result<Seq<char>, XrpcError> {
    match parse_spec(feed) {
        Err(_) => Err(XrpcError::InvalidRequest),
        Ok(u) => {
            if u.authority == publisher_did && u.collection == Some("app.bsky.feed.generator"@)
                && u.rkey is Some && names.contains(u.rkey->Some_0) {
                Ok(u.rkey->Some_0)
            } else {
                Err(XrpcError::UnsupportedAlgorithm)
            }
        },
    }
}

/// Validate a feed request against the registry, returning the index of
/// the algorithm to run.
pub fn validate_feed_request(feed: &str, publisher_did: &str, names: &Vec<String>) -> (r: Result<
    usize,
    XrpcError,
>)
    ensures
        ({
            let sp = feed_request_spec(
                feed@,
                publisher_did@,
                crate::strutil::views_of(names@),
            );
            match (r, sp) {
                (Ok(i), Ok(name)) => 0 <= i < names@.len() && names@[i as int]@ == name,
                (Err(e1), Err(e2)) => e1 == e2,
                _ => false,
            }
        }),
{
    let ghost nm = crate::strutil::views_of(names@);
    match AtUri::parse(feed) {
        Err(_) => Err(XrpcError::InvalidRequest),
        Ok(uri) => {
            let auth_ok = str_eq(uri.authority.as_str(), publisher_did);
            let coll_ok = match &uri.collection {
                Some(c) => str_eq(c.as_str(), "app.bsky.feed.generator"),
                None => false,
            };
            match &uri.rkey {
                Some(name) => {
                    if auth_ok && coll_ok {
                        let n = names.len();
                        let mut i: usize = 0;
                        while i < n
                            invariant
                                0 <= i <= n,
                                n == names@.len(),
                                nm == crate::strutil::views_of(names@),
                                nm.len() == n,
                                forall|k: int| 0 <= k < n ==> nm[k] == (
                                #[trigger] names@[k])@,
                                forall|k: int| 0 <= k < i ==> (#[trigger] nm[k]) != name@,
                                parse_spec(feed@) matches Ok(u) && u.authority == publisher_did@
                                    && u.collection == Some("app.bsky.feed.generator"@)
                                    && u.rkey == Some(name@),
                            decreases n - i,
                        {
                            if str_eq(names[i].as_str(), name.as_str()) {
                                proof {
                                    assert(nm[i as int] == name@);
                                    assert(nm.contains(name@));
                                }
                                return Ok(i);
                            }
                            i += 1;
                        }
                        proof {
                            if nm.contains(name@) {
                                let k = choose|k: int| 0 <= k < nm.len() && nm[k] == name@;
                                assert(false);
                            }
                        }
                        Err(XrpcError::UnsupportedAlgorithm)
                    } else {
                        Err(XrpcError::UnsupportedAlgorithm)
                    }
                },
                None => Err(XrpcError::UnsupportedAlgorithm),
            }
        },
    }
}

} // verus!
