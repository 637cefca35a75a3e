//! Verified decoder for the DAG-CBOR subset carried by the firehose: the
//! definite-length majors (integers, byte strings, text, arrays, maps with
//! text keys), the content-identifier tag, and the simple values `false`,
//! `true` and `null`. Indefinite lengths, other tags and floating-point
//! values are outside the subset and are rejected.

use vstd::prelude::*;
use vstd::slice::{slice_subrange, slice_to_vec};
use vstd::utf8::{valid_utf8, decode_utf8, encode_utf8, encode_utf8_decode_utf8};

use crate::strutil::utf8_to_string;

verus! {

broadcast use vstd::std_specs::vec::group_vec_axioms;

/// A generic structured DAG-CBOR value.
#[derive(Debug)]
pub enum Cbor {
    /// A non-negative integer.
    UInt(u64),
    /// The negative integer `-1 - n` for payload `n`.
    NInt(u64),
    Bytes(Vec<u8>),
    Text(String),
    List(Vec<Cbor>),
    /// Map entries in the order they appear on the wire; keys are text.
    Dict(Vec<(String, Cbor)>),
    /// A content-identifier link: the binary identifier carried by tag 42,
    /// without its leading multibase marker byte.
    Link(Vec<u8>),
    Boolean(bool),
    Null,
}

/// Mathematical model of a [`Cbor`] value.
#[verifier::ext_equal]
pub enum CborModel {
    UInt(u64),
    NInt(u64),
    Bytes(Seq<u8>),
    Text(Seq<char>),
    List(Seq<CborModel>),
    Dict(Seq<(Seq<char>, CborModel)>),
    Link(Seq<u8>),
    Boolean(bool),
    Null,
}

impl Cbor {
    /// Mathematical model of this value.
    pub open spec fn model(self) -> CborModel
        decreases self,
    {
        match self {
            Cbor::UInt(n) => CborModel::UInt(n),
            Cbor::NInt(n) => CborModel::NInt(n),
            Cbor::Bytes(b) => CborModel::Bytes(b@),
            Cbor::Text(t) => CborModel::Text(t@),
            Cbor::List(items) => CborModel::List(models_of(items@)),
            Cbor::Dict(entries) => CborModel::Dict(entry_models_of(entries@)),
            Cbor::Link(c) => CborModel::Link(c@),
            Cbor::Boolean(b) => CborModel::Boolean(b),
            Cbor::Null => CborModel::Null,
        }
    }
}

/// The models of a sequence of values.
pub open spec fn models_of(s: Seq<Cbor>) -> Seq<CborModel>
    decreases s,
{
    if s.len() == 0 {
        Seq::empty()
    } else {
        seq![s[0].model()] + models_of(s.subrange(1, s.len() as int))
    }
}

/// The models of a sequence of map entries.
pub open spec fn entry_models_of(s: Seq<(String, Cbor)>) -> Seq<(Seq<char>, CborModel)>
    decreases s,
{
    if s.len() == 0 {
        Seq::empty()
    } else {
        seq![(s[0].0@, s[0].1.model())] + entry_models_of(s.subrange(1, s.len() as int))
    }
}

impl View for Cbor {
    type V = CborModel;

    open spec fn view(&self) -> CborModel {
        self.model()
    }
}

/// Element-wise reading of [`models_of`].
pub proof fn lemma_models_of(s: Seq<Cbor>)
    ensures
        models_of(s).len() == s.len(),
        forall|i: int| 0 <= i < s.len() ==> models_of(s)[i] == #[trigger] s[i].model(),
    decreases s.len(),
{
    if s.len() > 0 {
        let t = s.subrange(1, s.len() as int);
        lemma_models_of(t);
        assert(forall|i: int| 1 <= i < s.len() ==> t[i - 1] == #[trigger] s[i]);
    }
}

/// Element-wise reading of [`entry_models_of`].
pub proof fn lemma_entry_models_of(s: Seq<(String, Cbor)>)
    ensures
        entry_models_of(s).len() == s.len(),
        forall|i: int| 0 <= i < s.len() ==> entry_models_of(s)[i] == (
        #[trigger] s[i].0@,
        s[i].1.model(),
        ),
    decreases s.len(),
{
    if s.len() > 0 {
        let t = s.subrange(1, s.len() as int);
        lemma_entry_models_of(t);
        assert(forall|i: int| 1 <= i < s.len() ==> t[i - 1] == #[trigger] s[i]);
    }
}

/// Decode the initial-byte argument of an item: the value and the number of
/// header bytes. Reserved and indefinite-length arguments are rejected.
pub open spec fn spec_arg(s: Seq<u8>) -> Option<(u64, int)> {
    if s.len() == 0 {
        None
    } else {
        let info = s[0] % 32;
        if info < 24 {
            Some(((info as u64, 1)))
        } else if info == 24 {
            if s.len() >= 2 {
                Some(((s[1] as u64, 2)))
            } else {
                None
            }
        } else if info == 25 {
            if s.len() >= 3 {
                Some(((((s[1] as u64) * 0x100 + (s[2] as u64)) as u64, 3)))
            } else {
                None
            }
        } else if info == 26 {
            if s.len() >= 5 {
                Some(
                    ((
                        ((s[1] as u64) * 0x1000000 + (s[2] as u64) * 0x10000 + (s[3] as u64)
                            * 0x100 + (s[4] as u64)) as u64,
                        5,
                    )),
                )
            } else {
                None
            }
        } else if info == 27 {
            if s.len() >= 9 {
                Some(
                    ((
                        ((s[1] as u64) * 0x100000000000000 + (s[2] as u64) * 0x1000000000000 + (
                        s[3] as u64) * 0x10000000000 + (s[4] as u64) * 0x100000000 + (s[5] as u64)
                            * 0x1000000 + (s[6] as u64) * 0x10000 + (s[7] as u64) * 0x100 + (
                        s[8] as u64)) as u64,
                        9,
                    )),
                )
            } else {
                None
            }
        } else {
            None
        }
    }
}

/// Parse one item at the head of `s`: the value and the bytes consumed.
/// `None` is a decode error.
pub open spec fn spec_parse(s: Seq<u8>) -> Option<(CborModel, int)>
    decreases s.len(), 0int, 0int,
{
    if s.len() == 0 {
        None
    } else {
        let major = s[0] / 32;
        match spec_arg(s) {
            None => None,
            Some((n, h)) => {
                if major == 0 {
                    Some(((CborModel::UInt(n), h)))
                } else if major == 1 {
                    Some(((CborModel::NInt(n), h)))
                } else if major == 2 {
                    if h + n <= s.len() {
                        Some(((CborModel::Bytes(s.subrange(h, h + n)), h + n)))
                    } else {
                        None
                    }
                } else if major == 3 {
                    if h + n <= s.len() && valid_utf8(s.subrange(h, h + n)) {
                        Some(((CborModel::Text(decode_utf8(s.subrange(h, h + n))), h + n)))
                    } else {
                        None
                    }
                } else if major == 4 {
                    match spec_parse_list(s.skip(h), n as int) {
                        Some((items, c)) => Some(((CborModel::List(items), h + c))),
                        None => None,
                    }
                } else if major == 5 {
                    match spec_parse_entries(s.skip(h), n as int) {
                        Some((entries, c)) => Some(((CborModel::Dict(entries), h + c))),
                        None => None,
                    }
                } else if major == 6 {
                    if n == 42 {
                        match spec_parse(s.skip(h)) {
                            Some((CborModel::Bytes(b), c)) => if b.len() >= 1 && b[0] == 0 {
                                Some(((CborModel::Link(b.drop_first()), h + c)))
                            } else {
                                None
                            },
                            _ => None,
                        }
                    } else {
                        None
                    }
                } else {
                    let info = s[0] % 32;
                    if info == 20 {
                        Some(((CborModel::Boolean(false), 1)))
                    } else if info == 21 {
                        Some(((CborModel::Boolean(true), 1)))
                    } else if info == 22 {
                        Some(((CborModel::Null, 1)))
                    } else {
                        None
                    }
                }
            },
        }
    }
}

/// Parse exactly `n` items back to back.
pub open spec fn spec_parse_list(s: Seq<u8>, n: int) -> Option<(Seq<CborModel>, int)>
    decreases s.len(), 1int, n,
{
    if n <= 0 {
        Some(((Seq::<CborModel>::empty(), 0)))
    } else {
        match spec_parse(s) {
            None => None,
            Some((v, c)) => if c < 1 || c > s.len() {
                None
            } else {
                match spec_parse_list(s.skip(c), n - 1) {
                    None => None,
                    Some((rest, c2)) => Some(((seq![v] + rest, c + c2))),
                }
            },
        }
    }
}

/// Parse exactly `n` key/value pairs back to back; every key must be text.
pub open spec fn spec_parse_entries(s: Seq<u8>, n: int) -> Option<
    (Seq<(Seq<char>, CborModel)>, int),
>
    decreases s.len(), 1int, n,
{
    if n <= 0 {
        Some(((Seq::<(Seq<char>, CborModel)>::empty(), 0)))
    } else {
        match spec_parse(s) {
            Some((CborModel::Text(k), c)) => if c < 1 || c > s.len() {
                None
            } else {
                match spec_parse(s.skip(c)) {
                    Some((v, c2)) => if c2 < 1 || c + c2 > s.len() {
                        None
                    } else {
                        match spec_parse_entries(s.skip(c + c2), n - 1) {
                            Some((rest, c3)) => Some(((seq![(k, v)] + rest, c + c2 + c3))),
                            None => None,
                        }
                    },
                    None => None,
                }
            },
            _ => None,
        }
    }
}

/// A successful parse consumes at least one and at most all bytes.
pub proof fn lemma_spec_parse_bounds(s: Seq<u8>)
    ensures
        spec_parse(s) matches Some((v, c)) ==> 1 <= c <= s.len(),
    decreases s.len(), 0int, 0int,
{
    if s.len() > 0 {
        let major = s[0] / 32;
        match spec_arg(s) {
            None => {},
            Some((n, h)) => {
                if major == 4 {
                    lemma_spec_parse_list_bounds(s.skip(h), n as int);
                } else if major == 5 {
                    lemma_spec_parse_entries_bounds(s.skip(h), n as int);
                } else if major == 6 {
                    if n == 42 {
                        lemma_spec_parse_bounds(s.skip(h));
                    }
                }
            },
        }
    }
}

/// A successful run of `n` items consumes at most all bytes and yields
/// exactly `n` values.
pub proof fn lemma_spec_parse_list_bounds(s: Seq<u8>, n: int)
    ensures
        spec_parse_list(s, n) matches Some((items, c)) ==> 0 <= c <= s.len() && items.len()
            == if n <= 0 {
            0
        } else {
            n
        },
    decreases s.len(), 1int, n,
{
    if n > 0 {
        lemma_spec_parse_bounds(s);
        match spec_parse(s) {
            None => {},
            Some((v, c)) => {
                if 1 <= c <= s.len() {
                    lemma_spec_parse_list_bounds(s.skip(c), n - 1);
                }
            },
        }
    }
}

/// A successful run of `n` pairs consumes at most all bytes and yields
/// exactly `n` entries.
pub proof fn lemma_spec_parse_entries_bounds(s: Seq<u8>, n: int)
    ensures
        spec_parse_entries(s, n) matches Some((entries, c)) ==> 0 <= c <= s.len() && entries.len()
            == if n <= 0 {
            0
        } else {
            n
        },
    decreases s.len(), 1int, n,
{
    if n > 0 {
        lemma_spec_parse_bounds(s);
        match spec_parse(s) {
            Some((CborModel::Text(k), c)) => {
                if 1 <= c <= s.len() {
                    lemma_spec_parse_bounds(s.skip(c));
                    match spec_parse(s.skip(c)) {
                        Some((v, c2)) => {
                            if 1 <= c2 && c + c2 <= s.len() {
                                lemma_spec_parse_entries_bounds(s.skip(c + c2), n - 1);
                            }
                        },
                        None => {},
                    }
                }
            },
            _ => {},
        }
    }
}

/// Prepending one value to a sequence prepends its model.
pub proof fn lemma_models_of_cons(v: Cbor, t: Seq<Cbor>)
    ensures
        models_of(seq![v] + t) == seq![v.model()] + models_of(t),
{
    let s = seq![v] + t;
    assert(s.subrange(1, s.len() as int) =~= t);
}

/// Prepending one entry to a sequence prepends its model.
pub proof fn lemma_entry_models_of_cons(e: (String, Cbor), t: Seq<(String, Cbor)>)
    ensures
        entry_models_of(seq![e] + t) == seq![(e.0@, e.1.model())] + entry_models_of(t),
{
    let s = seq![e] + t;
    assert(s.subrange(1, s.len() as int) =~= t);
}

/// Decode the initial byte and its argument: the value and the header
/// length in bytes.
fn parse_arg(data: &Vec<u8>, pos: usize) -> (r: Option<(u64, usize)>)
    requires
        pos <= data@.len(),
    ensures
        ({
            let sp = spec_arg(data@.skip(pos as int));
            match (r, sp) {
                (Some((n, h)), Some((sn, sh))) => n == sn && h as int == sh && 1 <= h && pos + h
                    <= data@.len(),
                (None, None) => true,
                _ => false,
            }
        }),
{
    let len = data.len();
    if pos == len {
        return None;
    }
    let ghost s = data@.skip(pos as int);
    proof {
        assert(forall|k: int| 0 <= k < s.len() ==> s[k] == data@[pos + k]);
    }
    let b0 = data[pos];
    let info = b0 % 32;
    if info < 24 {
        Some((info as u64, 1))
    } else if info == 24 {
        if len - pos >= 2 {
            Some((data[pos + 1] as u64, 2))
        } else {
            None
        }
    } else if info == 25 {
        if len - pos >= 3 {
            let n = (data[pos + 1] as u64) * 0x100 + (data[pos + 2] as u64);
            Some((n, 3))
        } else {
            None
        }
    } else if info == 26 {
        if len - pos >= 5 {
            let n = (data[pos + 1] as u64) * 0x1000000 + (data[pos + 2] as u64) * 0x10000 + (
            data[pos + 3] as u64) * 0x100 + (data[pos + 4] as u64);
            Some((n, 5))
        } else {
            None
        }
    } else if info == 27 {
        if len - pos >= 9 {
            let n = (data[pos + 1] as u64) * 0x100000000000000 + (data[pos + 2] as u64)
                * 0x1000000000000 + (data[pos + 3] as u64) * 0x10000000000 + (data[pos + 4] as u64)
                * 0x100000000 + (data[pos + 5] as u64) * 0x1000000 + (data[pos + 6] as u64)
                * 0x10000 + (data[pos + 7] as u64) * 0x100 + (data[pos + 8] as u64);
            Some((n, 9))
        } else {
            None
        }
    } else {
        None
    }
}

/// Parse the single item starting at `pos`; on success the new position is
/// just past it. The result is exactly what [`spec_parse`] says of the
/// bytes from `pos` on.
pub fn parse_item(data: &Vec<u8>, pos: usize) -> (r: Option<(Cbor, usize)>)
    requires
        pos <= data@.len(),
    ensures
        ({
            let sp = spec_parse(data@.skip(pos as int));
            match (r, sp) {
                (Some((v, p2)), Some((sv, c))) => v@ == sv && p2 as int == pos + c && pos < p2
                    <= data@.len(),
                (None, None) => true,
                _ => false,
            }
        }),
    decreases data@.len() - pos, 0int, 0int,
{
    let ghost s = data@.skip(pos as int);
    proof {
        lemma_spec_parse_bounds(s);
        assert(forall|k: int| 0 <= k < s.len() ==> s[k] == data@[pos + k]);
    }
    let len = data.len();
    if pos == len {
        return None;
    }
    let b0 = data[pos];
    let major = b0 / 32;
    match parse_arg(data, pos) {
        None => None,
        Some((n, h)) => {
            if major == 0 {
                Some((Cbor::UInt(n), pos + h))
            } else if major == 1 {
                Some((Cbor::NInt(n), pos + h))
            } else if major == 2 || major == 3 {
                let rem = len - (pos + h);
                if n > rem as u64 {
                    return None;
                }
                let start = pos + h;
                let end = start + (n as usize);
                let piece = slice_subrange(data.as_slice(), start, end);
                proof {
                    assert(piece@ =~= s.subrange(h as int, h + n));
                }
                if major == 2 {
                    let v = slice_to_vec(piece);
                    Some((Cbor::Bytes(v), end))
                } else {
                    match utf8_to_string(piece) {
                        Some(t) => {
                            proof {
                                encode_utf8_decode_utf8(t@);
                            }
                            Some((Cbor::Text(t), end))
                        },
                        None => None,
                    }
                }
            } else if major == 4 {
                proof {
                    assert(data@.skip(pos + h) =~= s.skip(h as int));
                }
                match parse_list_items(data, pos + h, n) {
                    Some((items, p2)) => Some((Cbor::List(items), p2)),
                    None => None,
                }
            } else if major == 5 {
                proof {
                    assert(data@.skip(pos + h) =~= s.skip(h as int));
                }
                match parse_entry_items(data, pos + h, n) {
                    Some((entries, p2)) => Some((Cbor::Dict(entries), p2)),
                    None => None,
                }
            } else if major == 6 {
                if n != 42 {
                    return None;
                }
                proof {
                    assert(data@.skip(pos + h) =~= s.skip(h as int));
                }
                match parse_item(data, pos + h) {
                    Some((inner, p2)) => {
                        match inner {
                            Cbor::Bytes(b) => {
                                if b.len() >= 1 && b[0] == 0 {
                                    let cid = slice_to_vec(
                                        slice_subrange(b.as_slice(), 1, b.len()),
                                    );
                                    proof {
                                        assert(cid@ =~= b@.drop_first());
                                    }
                                    Some((Cbor::Link(cid), p2))
                                } else {
                                    None
                                }
                            },
                            _ => None,
                        }
                    },
                    None => None,
                }
            } else {
                let info = b0 % 32;
                if info == 20 {
                    Some((Cbor::Boolean(false), pos + 1))
                } else if info == 21 {
                    Some((Cbor::Boolean(true), pos + 1))
                } else if info == 22 {
                    Some((Cbor::Null, pos + 1))
                } else {
                    None
                }
            }
        },
    }
}

/// Parse exactly `n` items starting at `pos`.
fn parse_list_items(data: &Vec<u8>, pos: usize, n: u64) -> (r: Option<(Vec<Cbor>, usize)>)
    requires
        pos <= data@.len(),
    ensures
        ({
            let sp = spec_parse_list(data@.skip(pos as int), n as int);
            match (r, sp) {
                (Some((items, p2)), Some((sitems, c))) => models_of(items@) == sitems && p2 as int
                    == pos + c && pos <= p2 <= data@.len(),
                (None, None) => true,
                _ => false,
            }
        }),
    decreases data@.len() - pos, 1int, n,
{
    let ghost s = data@.skip(pos as int);
    if n == 0 {
        return Some((Vec::new(), pos));
    }
    match parse_item(data, pos) {
        None => None,
        Some((v, p1)) => {
            proof {
                assert(data@.skip(p1 as int) =~= s.skip(p1 - pos));
            }
            match parse_list_items(data, p1, n - 1) {
                None => None,
                Some((items, p2)) => {
                    let mut items = items;
                    let ghost tail = items@;
                    items.insert(0, v);
                    proof {
                        assert(items@ =~= seq![v] + tail);
                        lemma_models_of_cons(v, tail);
                    }
                    Some((items, p2))
                },
            }
        },
    }
}

/// Parse exactly `n` key/value pairs starting at `pos`; keys must be text.
fn parse_entry_items(data: &Vec<u8>, pos: usize, n: u64) -> (r: Option<
    (Vec<(String, Cbor)>, usize),
>)
    requires
        pos <= data@.len(),
    ensures
        ({
            let sp = spec_parse_entries(data@.skip(pos as int), n as int);
            match (r, sp) {
                (Some((entries, p2)), Some((sentries, c))) => entry_models_of(entries@) == sentries
                    && p2 as int == pos + c && pos <= p2 <= data@.len(),
                (None, None) => true,
                _ => false,
            }
        }),
    decreases data@.len() - pos, 1int, n,
{
    let ghost s = data@.skip(pos as int);
    if n == 0 {
        return Some((Vec::new(), pos));
    }
    match parse_item(data, pos) {
        None => None,
        Some((kv, p1)) => {
            match kv {
                Cbor::Text(k) => {
                    proof {
                        assert(data@.skip(p1 as int) =~= s.skip(p1 - pos));
                    }
                    match parse_item(data, p1) {
                        None => None,
                        Some((v, p2)) => {
                            proof {
                                assert(data@.skip(p2 as int) =~= s.skip(p2 - pos));
                            }
                            match parse_entry_items(data, p2, n - 1) {
                                None => None,
                                Some((entries, p3)) => {
                                    let mut entries = entries;
                                    let ghost tail = entries@;
                                    entries.insert(0, (k, v));
                                    proof {
                                        assert(entries@ =~= seq![(k, v)] + tail);
                                        lemma_entry_models_of_cons((k, v), tail);
                                    }
                                    Some((entries, p3))
                                },
                            }
                        },
                    }
                },
                _ => None,
            }
        },
    }
}

/// A whole buffer as one item: parse succeeds only if every byte belongs
/// to the value.
pub open spec fn spec_parse_all(s: Seq<u8>) -> Option<CborModel> {
    match spec_parse(s) {
        Some((v, c)) => if c == s.len() {
            Some(v)
        } else {
            None
        },
        None => None,
    }
}

/// Parse a buffer holding exactly one item, rejecting trailing bytes.
pub fn parse_all(data: &Vec<u8>) -> (r: Option<Cbor>)
    ensures
        match (r, spec_parse_all(data@)) {
            (Some(v), Some(sv)) => v@ == sv,
            (None, None) => true,
            _ => false,
        },
{
    proof {
        assert(data@.skip(0) =~= data@);
    }
    match parse_item(data, 0) {
        Some((v, p)) => {
            if p == data.len() {
                Some(v)
            } else {
                None
            }
        },
        None => None,
    }
}

/// First value under `key`, if any: map lookup in wire order.
pub open spec fn dict_get(entries: Seq<(Seq<char>, CborModel)>, key: Seq<char>) -> Option<
    CborModel,
>
    decreases entries.len(),
{
    if entries.len() == 0 {
        None
    } else if entries[0].0 == key {
        Some(entries[0].1)
    } else {
        dict_get(entries.drop_first(), key)
    }
}

/// Look a key up in decoded map entries.
pub fn entries_get<'a>(entries: &'a Vec<(String, Cbor)>, key: &str) -> (r: Option<&'a Cbor>)
    ensures
        match (r, dict_get(entry_models_of(entries@), key@)) {
            (Some(v), Some(sv)) => v@ == sv,
            (None, None) => true,
            _ => false,
        },
{
    proof {
        lemma_entry_models_of(entries@);
        assert(entry_models_of(entries@).skip(0) =~= entry_models_of(entries@));
    }
    let ghost ms = entry_models_of(entries@);
    let mut i: usize = 0;
    while i < entries.len()
        invariant
            0 <= i <= entries@.len(),
            ms == entry_models_of(entries@),
            ms.len() == entries@.len(),
            forall|k: int| 0 <= k < entries@.len() ==> ms[k] == (
            #[trigger] entries@[k].0@,
            entries@[k].1.model(),
            ),
            dict_get(ms, key@) == dict_get(ms.skip(i as int), key@),
        decreases entries@.len() - i,
    {
        proof {
            assert(ms.skip(i as int)[0] == ms[i as int]);
            assert(ms.skip(i as int).drop_first() =~= ms.skip(i as int + 1));
        }
        if crate::strutil::str_eq(entries[i].0.as_str(), key) {
            return Some(&entries[i].1);
        }
        i += 1;
    }
    None
}

} // verus!
