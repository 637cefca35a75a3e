//! The `at://` URI model: structured authority / collection / record-key
//! values, their canonical string form, and an exact parser, with proofs
//! that the two are inverse to each other.

use vstd::prelude::*;

use crate::strutil::{find_char, lemma_find_char, lemma_find_char_is, lemma_find_char_none,
    str_find_char};

pub mod feed;
pub mod follow;
pub mod like;
pub mod post;
pub mod repo;
pub mod repost;
pub mod subscribe_repos;

verus! {

/// A structured `at://` URI: `at://<authority>[/<collection>[/<record-key>]]`.
#[derive(Debug, Clone)]
pub struct AtUri {
    pub authority: String,
    pub collection: Option<String>,
    pub rkey: Option<String>,
}

/// Mathematical model of an [`AtUri`]: the three components as character
/// sequences.
#[verifier::ext_equal]
pub struct AtUriModel {
    pub authority: Seq<char>,
    pub collection: Option<Seq<char>>,
    pub rkey: Option<Seq<char>>,
}

impl View for AtUri {
    type V = AtUriModel;

    open spec fn view(&self) -> AtUriModel {
        AtUriModel {
            authority: self.authority@,
            collection: match self.collection {
                Some(c) => Some(c@),
                None => None,
            },
            rkey: match self.rkey {
                Some(r) => Some(r@),
                None => None,
            },
        }
    }
}

/// The characters of the literal protocol prefix `at://`.
pub open spec fn at_prefix() -> Seq<char> {
    seq!['a', 't', ':', '/', '/']
}

/// Whether `s` begins with the protocol prefix `at://`.
pub open spec fn has_at_prefix(s: Seq<char>) -> bool {
    s.len() >= 5 && s.subrange(0, 5) == at_prefix()
}

impl AtUriModel {
    /// The shapes the parser can produce: no `/` inside the authority or the
    /// collection, and a record key only under a collection. Exactly these
    /// values serialize and re-parse as an identity.
    pub open spec fn wf(self) -> bool {
        &&& !self.authority.contains('/')
        &&& match self.collection {
            Some(c) => !c.contains('/'),
            None => self.rkey is None,
        }
    }
}

/// Canonical string form: `at://<authority>[/<collection>[/<record-key>]]`.
pub open spec fn to_uri_seq(v: AtUriModel) -> Seq<char> {
    at_prefix() + v.authority + match v.collection {
        Some(c) => seq!['/'] + c + match v.rkey {
            Some(r) => seq!['/'] + r,
            None => Seq::<char>::empty(),
        },
        None => Seq::<char>::empty(),
    }
}

/// Errors reported by the `at://` URI parser.
#[derive(Debug, Clone, Copy, PartialEq, Eq, Structural)]
pub enum AtUriParseError {
    InvalidProtocolPrefix,
}

/// The parse function as a mathematical map: strings without the `at://`
/// prefix are rejected; the remainder is split at the first `/` into
/// authority and rest, and the rest at its first `/` into collection and
/// record key.
pub open spec fn parse_spec(s: Seq<char>) -> Result<AtUriModel, AtUriParseError> {
    if !has_at_prefix(s) {
        Err(AtUriParseError::InvalidProtocolPrefix)
    } else {
        let rest = s.skip(5);
        match find_char(rest, '/') {
            None => Ok(AtUriModel { authority: rest, collection: None, rkey: None }),
            Some(i) => {
                let auth = rest.take(i);
                let tail = rest.skip(i + 1);
                match find_char(tail, '/') {
                    None => Ok(AtUriModel { authority: auth, collection: Some(tail), rkey: None }),
                    Some(j) => Ok(
                        AtUriModel {
                            authority: auth,
                            collection: Some(tail.take(j)),
                            rkey: Some(tail.skip(j + 1)),
                        },
                    ),
                }
            },
        }
    }
}

/// Splitting a path `<collection>[/<record-key>]` under a given authority.
pub open spec fn with_auth_path_spec(a: Seq<char>, p: Seq<char>) -> AtUriModel {
    match find_char(p, '/') {
        None => AtUriModel { authority: a, collection: Some(p), rkey: None },
        Some(i) => AtUriModel {
            authority: a,
            collection: Some(p.take(i)),
            rkey: Some(p.skip(i + 1)),
        },
    }
}

impl AtUri {
    pub fn new(authority: String, collection: Option<String>, rkey: Option<String>) -> (r: Self)
        ensures
            r@ == (AtUri { authority, collection, rkey })@,
    {
        Self { authority, collection, rkey }
    }

    pub fn with_auth(authority: String) -> (r: Self)
        ensures
            r@ == (AtUriModel { authority: authority@, collection: None, rkey: None }),
    {
        Self { authority, collection: None, rkey: None }
    }

    /// Build a value from an authority and a `<collection>/<record-key>`
    /// path that carries no `at://` prefix.
    pub fn with_auth_path(authority: String, path: String) -> (r: Self)
        ensures
            r@ == with_auth_path_spec(authority@, path@),
    {
        match str_find_char(path.as_str(), '/') {
            None => Self { authority, collection: Some(path), rkey: None },
            Some(i) => {
                proof {
                    lemma_find_char(path@, '/');
                }
                let n = path.as_str().unicode_len();
                let collection = String::from_str(path.as_str().substring_char(0, i));
                let rkey = String::from_str(path.as_str().substring_char(i + 1, n));
                proof {
                    assert(collection@ =~= path@.take(i as int));
                    assert(rkey@ =~= path@.skip(i as int + 1));
                }
                Self { authority, collection: Some(collection), rkey: Some(rkey) }
            },
        }
    }

    /// Render the canonical `at://` string form.
    pub fn to_string(&self) -> (r: String)
        ensures
            r@ == to_uri_seq(self@),
    {
        proof {
            reveal_strlit("at://");
            reveal_strlit("/");
            assert("at://"@ =~= at_prefix());
        }
        let mut out = String::from_str("at://");
        out.append(self.authority.as_str());
        if let Some(collection) = &self.collection {
            out.append("/");
            out.append(collection.as_str());
            if let Some(rkey) = &self.rkey {
                out.append("/");
                out.append(rkey.as_str());
            }
        }
        proof {
            assert(out@ =~= to_uri_seq(self@));
        }
        out
    }

    /// Parse the canonical string form; fails exactly on a missing `at://`
    /// prefix.
    pub fn parse(s: &str) -> (r: Result<Self, AtUriParseError>)
        ensures
            match (r, parse_spec(s@)) {
                (Ok(u), Ok(v)) => u@ == v,
                (Err(e1), Err(e2)) => e1 == e2,
                _ => false,
            },
    {
        let n = s.unicode_len();
        if n < 5 || s.get_char(0) != 'a' || s.get_char(1) != 't' || s.get_char(2) != ':'
            || s.get_char(3) != '/' || s.get_char(4) != '/' {
            proof {
                if s@.len() >= 5 && s@.subrange(0, 5) == at_prefix() {
                    assert(s@[0] == 'a' && s@[1] == 't' && s@[2] == ':' && s@[3] == '/'
                        && s@[4] == '/') by {
                        assert(forall|k: int| 0 <= k < 5 ==> s@.subrange(0, 5)[k] == s@[k]);
                    }
                }
            }
            return Err(AtUriParseError::InvalidProtocolPrefix);
        }
        proof {
            assert(s@.subrange(0, 5) =~= at_prefix());
        }
        let rest = s.substring_char(5, n);
        proof {
            assert(rest@ =~= s@.skip(5));
        }
        let rn = rest.unicode_len();
        match str_find_char(rest, '/') {
            None => Ok(Self { authority: String::from_str(rest), collection: None, rkey: None }),
            Some(i) => {
                proof {
                    lemma_find_char(rest@, '/');
                }
                let authority = String::from_str(rest.substring_char(0, i));
                let tail = rest.substring_char(i + 1, rn);
                proof {
                    assert(authority@ =~= rest@.take(i as int));
                    assert(tail@ =~= rest@.skip(i as int + 1));
                }
                let tn = tail.unicode_len();
                match str_find_char(tail, '/') {
                    None => Ok(
                        Self {
                            authority,
                            collection: Some(String::from_str(tail)),
                            rkey: None,
                        },
                    ),
                    Some(j) => {
                        proof {
                            lemma_find_char(tail@, '/');
                        }
                        let collection = String::from_str(tail.substring_char(0, j));
                        let rkey = String::from_str(tail.substring_char(j + 1, tn));
                        proof {
                            assert(collection@ =~= tail@.take(j as int));
                            assert(rkey@ =~= tail@.skip(j as int + 1));
                        }
                        Ok(Self { authority, collection: Some(collection), rkey: Some(rkey) })
                    },
                }
            },
        }
    }
}

impl PartialEq for AtUri {
    fn eq(&self, other: &Self) -> (r: bool) {
        let c_eq = match (&self.collection, &other.collection) {
            (None, None) => true,
            (Some(a), Some(b)) => crate::strutil::str_eq(a.as_str(), b.as_str()),
            _ => false,
        };
        let k_eq = match (&self.rkey, &other.rkey) {
            (None, None) => true,
            (Some(a), Some(b)) => crate::strutil::str_eq(a.as_str(), b.as_str()),
            _ => false,
        };
        let r = self.authority == other.authority && c_eq && k_eq;
        proof {
            if r {
                assert(self@ =~= other@);
            }
        }
        r
    }
}

impl vstd::std_specs::cmp::PartialEqSpecImpl for AtUri {
    open spec fn obeys_eq_spec() -> bool {
        true
    }

    open spec fn eq_spec(&self, other: &Self) -> bool {
        self@ == other@
    }
}

/// A parse failure is exactly a missing `at://` prefix, and it is the only
/// error the parser reports.
pub proof fn lemma_parse_requires_prefix(s: Seq<char>)
    ensures
        parse_spec(s) is Err <==> !has_at_prefix(s),
        parse_spec(s) is Err ==> parse_spec(s) == Err::<AtUriModel, _>(
            AtUriParseError::InvalidProtocolPrefix,
        ),
{
}

/// Any value the parser produces is well-formed.
pub proof fn lemma_parse_wf(s: Seq<char>)
    requires
        parse_spec(s) is Ok,
    ensures
        parse_spec(s)->Ok_0.wf(),
{
    let rest = s.skip(5);
    lemma_find_char(rest, '/');
    match find_char(rest, '/') {
        None => {
            assert(!rest.contains('/'));
        },
        Some(i) => {
            let auth = rest.take(i);
            let tail = rest.skip(i + 1);
            assert(forall|k: int| 0 <= k < auth.len() ==> auth[k] == rest[k]);
            assert(!auth.contains('/'));
            lemma_find_char(tail, '/');
            match find_char(tail, '/') {
                None => {
                    assert(!tail.contains('/'));
                },
                Some(j) => {
                    let coll = tail.take(j);
                    assert(forall|k: int| 0 <= k < coll.len() ==> coll[k] == tail[k]);
                    assert(!coll.contains('/'));
                },
            }
        },
    }
}

/// Round trip: every well-formed value re-parses from its canonical string
/// form to itself.
pub proof fn lemma_uri_round_trip(v: AtUriModel)
    requires
        v.wf(),
    ensures
        parse_spec(to_uri_seq(v)) == Ok::<AtUriModel, AtUriParseError>(v),
{
    let s = to_uri_seq(v);
    assert(s.subrange(0, 5) =~= at_prefix());
    let rest = s.skip(5);
    match v.collection {
        None => {
            assert(rest =~= v.authority);
            assert(forall|k: int| 0 <= k < rest.len() ==> rest[k] != '/') by {
                assert(forall|k: int| 0 <= k < v.authority.len() ==> v.authority[k] != '/');
            }
            lemma_find_char_none(rest, '/');
            assert(parse_spec(s)->Ok_0 =~= v);
        },
        Some(c) => {
            let alen = v.authority.len() as int;
            match v.rkey {
                None => {
                    assert(rest =~= v.authority + seq!['/'] + c);
                },
                Some(r) => {
                    assert(rest =~= v.authority + seq!['/'] + c + seq!['/'] + r);
                },
            }
            assert(rest[alen] == '/');
            assert(forall|k: int| 0 <= k < alen ==> rest[k] != '/') by {
                assert(forall|k: int| 0 <= k < v.authority.len() ==> rest[k] == v.authority[k]);
                assert(forall|k: int| 0 <= k < v.authority.len() ==> v.authority[k] != '/');
            }
            lemma_find_char_is(rest, '/', alen);
            let tail = rest.skip(alen + 1);
            assert(rest.take(alen) =~= v.authority);
            match v.rkey {
                None => {
                    assert(tail =~= c);
                    assert(forall|k: int| 0 <= k < tail.len() ==> tail[k] != '/') by {
                        assert(forall|k: int| 0 <= k < c.len() ==> c[k] != '/');
                    }
                    lemma_find_char_none(tail, '/');
                    assert(parse_spec(s)->Ok_0 =~= v);
                },
                Some(r) => {
                    let clen = c.len() as int;
                    assert(tail =~= c + seq!['/'] + r);
                    assert(tail[clen] == '/');
                    assert(forall|k: int| 0 <= k < clen ==> tail[k] != '/') by {
                        assert(forall|k: int| 0 <= k < c.len() ==> tail[k] == c[k]);
                        assert(forall|k: int| 0 <= k < c.len() ==> c[k] != '/');
                    }
                    lemma_find_char_is(tail, '/', clen);
                    assert(tail.take(clen) =~= c);
                    assert(tail.skip(clen + 1) =~= r);
                    assert(parse_spec(s)->Ok_0 =~= v);
                },
            }
        },
    }
}

/// Reverse round trip: any string that carries the prefix parses, and the
/// parsed value renders back to the very same string.
pub proof fn lemma_string_round_trip(s: Seq<char>)
    requires
        has_at_prefix(s),
    ensures
        parse_spec(s) is Ok,
        to_uri_seq(parse_spec(s)->Ok_0) == s,
{
    let rest = s.skip(5);
    assert(s =~= s.subrange(0, 5) + rest);
    lemma_find_char(rest, '/');
    match find_char(rest, '/') {
        None => {
            assert(to_uri_seq(parse_spec(s)->Ok_0) =~= s);
        },
        Some(i) => {
            let tail = rest.skip(i + 1);
            lemma_find_char(tail, '/');
            assert(rest =~= rest.take(i) + seq!['/'] + tail);
            match find_char(tail, '/') {
                None => {
                    assert(to_uri_seq(parse_spec(s)->Ok_0) =~= s);
                },
                Some(j) => {
                    assert(tail =~= tail.take(j) + seq!['/'] + tail.skip(j + 1));
                    assert(to_uri_seq(parse_spec(s)->Ok_0) =~= s);
                },
            }
        },
    }
}

/// Deriving a URI from an authority and an operation path renders exactly
/// as `at://<authority>/<path>`, the same bytes that parsing that string
/// would round-trip to.
pub proof fn lemma_with_auth_path_string(a: Seq<char>, p: Seq<char>)
    ensures
        to_uri_seq(with_auth_path_spec(a, p)) == at_prefix() + a + seq!['/'] + p,
{
    lemma_find_char(p, '/');
    match find_char(p, '/') {
        None => {
            assert(to_uri_seq(with_auth_path_spec(a, p)) =~= at_prefix() + a + seq!['/'] + p);
        },
        Some(i) => {
            assert(p =~= p.take(i) + seq!['/'] + p.skip(i + 1));
            assert(to_uri_seq(with_auth_path_spec(a, p)) =~= at_prefix() + a + seq!['/'] + p);
        },
    }
}

} // verus!
