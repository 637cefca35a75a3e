//! Strong references: a pointer to another record as a structured URI plus
//! the content identifier expected there. A reference whose URI does not
//! parse is kept as a distinct `Invalid` value rather than dropped.

use vstd::prelude::*;

use crate::cbor::Cbor;
use crate::lexicon::{AtUri, AtUriModel, parse_spec};
use crate::strutil::str_eq;

verus! {

/// A decoded strong reference.
#[derive(Debug, Clone)]
pub enum StrongRef {
    Valid { uri: AtUri, cid: String },
    Invalid,
}

/// Model of a [`StrongRef`].
pub enum StrongRefModel {
    Valid { uri: AtUriModel, cid: Seq<char> },
    Invalid,
}

impl View for StrongRef {
    type V = StrongRefModel;

    open spec fn view(&self) -> StrongRefModel {
        match self {
            StrongRef::Valid { uri, cid } => StrongRefModel::Valid { uri: uri@, cid: cid@ },
            StrongRef::Invalid => StrongRefModel::Invalid,
        }
    }
}

impl PartialEq for StrongRef {
    fn eq(&self, other: &Self) -> (r: bool) {
        match (self, other) {
            (StrongRef::Invalid, StrongRef::Invalid) => true,
            (
                StrongRef::Valid { uri: u1, cid: c1 },
                StrongRef::Valid { uri: u2, cid: c2 },
            ) => u1 == u2 && str_eq(c1.as_str(), c2.as_str()),
            _ => false,
        }
    }
}

impl vstd::std_specs::cmp::PartialEqSpecImpl for StrongRef {
    open spec fn obeys_eq_spec() -> bool {
        true
    }

    open spec fn eq_spec(&self, other: &Self) -> bool {
        match (self, other) {
            (StrongRef::Invalid, StrongRef::Invalid) => true,
            (
                StrongRef::Valid { uri: u1, cid: c1 },
                StrongRef::Valid { uri: u2, cid: c2 },
            ) => u1@ == u2@ && c1@ == c2@,
            _ => false,
        }
    }
}

/// Walk the fields of a reference object strictly, as its decoder does:
/// `cid` and `uri` must each be a string given at most once, a `$type`
/// field must name the strong-reference kind, and any other field is an
/// error. An entry's value is `None` when it is not a string.
pub open spec fn sr_walk(
    entries: Seq<(Seq<char>, Option<Seq<char>>)>,
    cid: Option<Seq<char>>,
    uri: Option<Seq<char>>,
) -> Option<(Option<Seq<char>>, Option<Seq<char>>)>
    decreases entries.len(),
{
    if entries.len() == 0 {
        Some((cid, uri))
    } else {
        let key = entries[0].0;
        let value = entries[0].1;
        let rest = entries.drop_first();
        if key == "cid"@ {
            if cid is Some {
                None
            } else {
                match value {
                    Some(t) => sr_walk(rest, Some(t), uri),
                    None => None,
                }
            }
        } else if key == "uri"@ {
            if uri is Some {
                None
            } else {
                match value {
                    Some(t) => sr_walk(rest, cid, Some(t)),
                    None => None,
                }
            }
        } else if key == "$type"@ {
            match value {
                Some(t) => if t == "com.atproto.repo.strongRef"@ {
                    sr_walk(rest, cid, uri)
                } else {
                    None
                },
                None => None,
            }
        } else {
            None
        }
    }
}

/// What decoding a reference object yields: `None` is a decode error;
/// a URI that does not parse yields `Invalid`, never an error.
pub open spec fn strong_ref_of(entries: Seq<(Seq<char>, Option<Seq<char>>)>) -> Option<
    StrongRefModel,
> {
    match sr_walk(entries, None, None) {
        Some((Some(cid), Some(uri))) => match parse_spec(uri) {
            Ok(u) => Some(StrongRefModel::Valid { uri: u, cid }),
            Err(_) => Some(StrongRefModel::Invalid),
        },
        _ => None,
    }
}

/// Models of (key, optional string value) pairs.
pub open spec fn opt_entry_models_of(s: Seq<(String, Option<String>)>) -> Seq<
    (Seq<char>, Option<Seq<char>>),
> {
    s.map(
        |i: int, e: (String, Option<String>)|
            (
                e.0@,
                match e.1 {
                    Some(t) => Some(t@),
                    None => None,
                },
            ),
    )
}

/// Keys with their values reduced to strings where they are strings.
pub open spec fn text_entries_of(s: Seq<(Seq<char>, crate::cbor::CborModel)>) -> Seq<
    (Seq<char>, Option<Seq<char>>),
> {
    s.map(
        |i: int, e: (Seq<char>, crate::cbor::CborModel)|
            (
                e.0,
                match e.1 {
                    crate::cbor::CborModel::Text(t) => Some(t),
                    _ => None,
                },
            ),
    )
}

/// Name for what `serde_json` parses out of a string: `None` when the
/// string is not a JSON object, else the object's entries in the parser's
/// order, each value kept only when it is a JSON string.
pub uninterp spec fn json_entries_of(s: Seq<char>) -> Option<Seq<(Seq<char>, Option<Seq<char>>)>>;

/// Relies on `serde_json::from_str` and `serde_json::Value::as_object` /
/// `as_str`: flattens a JSON object into its entries, keeping each value
/// only when it is a string.
#[verifier::external_body]
fn json_object_entries(s: &str) -> (r: Option<Vec<(String, Option<String>)>>)
    ensures
        r matches Some(v) ==> json_entries_of(s@) == Some(opt_entry_models_of(v@)),
        r is None ==> json_entries_of(s@) is None,
{
    let value: serde_json::Value = serde_json::from_str(s).ok()?;
    let object = value.as_object()?;
    Some(
        object.iter().map(|(k, v)| (k.clone(), v.as_str().map(|t| t.to_string()))).collect(),
    )
}

impl StrongRef {
    /// Decode a reference from (key, optional string value) pairs.
    pub fn from_entries(entries: &Vec<(String, Option<String>)>) -> (r: Option<StrongRef>)
        ensures
            ({
                let sp = strong_ref_of(opt_entry_models_of(entries@));
                match (r, sp) {
                    (Some(x), Some(m)) => x@ == m,
                    (None, None) => true,
                    _ => false,
                }
            }),
    {
        let ghost ms = opt_entry_models_of(entries@);
        proof {
            assert(ms.skip(0) =~= ms);
        }
        let mut cid: Option<&String> = None;
        let mut uri: Option<&String> = None;
        let n = entries.len();
        let mut i: usize = 0;
        while i < n
            invariant
                0 <= i <= n,
                n == entries@.len(),
                ms == opt_entry_models_of(entries@),
                ms.len() == entries@.len(),
                forall|k: int| 0 <= k < n ==> #[trigger] ms[k] == (
                    entries@[k].0@,
                    match entries@[k].1 {
                        Some(t) => Some(t@),
                        None => None,
                    },
                ),
                sr_walk(ms, None, None) == sr_walk(
                    ms.skip(i as int),
                    match cid {
                        Some(c) => Some(c@),
                        None => None,
                    },
                    match uri {
                        Some(u) => Some(u@),
                        None => None,
                    },
                ),
            decreases n - i,
        {
            proof {
                assert(ms.skip(i as int)[0] == ms[i as int]);
                assert(ms.skip(i as int).drop_first() =~= ms.skip(i as int + 1));
            }
            let key = &entries[i].0;
            let value = &entries[i].1;
            if str_eq(key.as_str(), "cid") {
                if cid.is_some() {
                    return None;
                }
                match value {
                    Some(t) => {
                        cid = Some(t);
                    },
                    None => {
                        return None;
                    },
                }
            } else if str_eq(key.as_str(), "uri") {
                if uri.is_some() {
                    return None;
                }
                match value {
                    Some(t) => {
                        uri = Some(t);
                    },
                    None => {
                        return None;
                    },
                }
            } else if str_eq(key.as_str(), "$type") {
                match value {
                    Some(t) => {
                        if !str_eq(t.as_str(), "com.atproto.repo.strongRef") {
                            return None;
                        }
                    },
                    None => {
                        return None;
                    },
                }
            } else {
                return None;
            }
            i += 1;
        }
        proof {
            assert(ms.skip(n as int) =~= Seq::empty());
        }
        match (cid, uri) {
            (Some(c), Some(u)) => {
                match AtUri::parse(u.as_str()) {
                    Ok(parsed) => Some(
                        StrongRef::Valid { uri: parsed, cid: String::from_str(c.as_str()) },
                    ),
                    Err(_) => Some(StrongRef::Invalid),
                }
            },
            _ => None,
        }
    }

    /// Decode a reference from the entries of a structured map value.
    pub fn from_cbor_entries(entries: &Vec<(String, Cbor)>) -> (r: Option<StrongRef>)
        ensures
            ({
                let sp = strong_ref_of(
                    text_entries_of(crate::cbor::entry_models_of(entries@)),
                );
                match (r, sp) {
                    (Some(x), Some(m)) => x@ == m,
                    (None, None) => true,
                    _ => false,
                }
            }),
    {
        proof {
            crate::cbor::lemma_entry_models_of(entries@);
        }
        let mut flat: Vec<(String, Option<String>)> = Vec::new();
        let n = entries.len();
        let mut i: usize = 0;
        while i < n
            invariant
                0 <= i <= n,
                n == entries@.len(),
                flat@.len() == i,
                forall|k: int| 0 <= k < i ==> (#[trigger] flat@[k]).0@ == entries@[k].0@,
                forall|k: int| 0 <= k < i ==> (match (#[trigger] flat@[k]).1 {
                    Some(t) => Some(t@),
                    None => None,
                }) == (match entries@[k].1.model() {
                    crate::cbor::CborModel::Text(t) => Some(t),
                    _ => None,
                }),
            decreases n - i,
        {
            let key = String::from_str(entries[i].0.as_str());
            let value = match &entries[i].1 {
                Cbor::Text(t) => Some(String::from_str(t.as_str())),
                _ => None,
            };
            flat.push((key, value));
            i += 1;
        }
        proof {
            crate::cbor::lemma_entry_models_of(entries@);
            assert(opt_entry_models_of(flat@) =~= text_entries_of(
                crate::cbor::entry_models_of(entries@),
            ));
        }
        StrongRef::from_entries(&flat)
    }

    /// Decode a reference from the JSON rendering of the object.
    pub fn from_json(s: &str) -> (r: Option<StrongRef>)
        ensures
            ({
                let sp = match json_entries_of(s@) {
                    Some(entries) => strong_ref_of(entries),
                    None => None,
                };
                match (r, sp) {
                    (Some(x), Some(m)) => x@ == m,
                    (None, None) => true,
                    _ => false,
                }
            }),
    {
        match json_object_entries(s) {
            Some(entries) => StrongRef::from_entries(&entries),
            None => None,
        }
    }
}

} // verus!
