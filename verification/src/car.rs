//! Verified decoder for the content-addressed block archive ("CAR")
//! carried inside a commit: a varint-prefixed header block followed by
//! sections, each a varint length, a binary content identifier, and the
//! block bytes. Only version-1 archives are in the subset.

use vstd::prelude::*;

use crate::cbor::{spec_parse_all, dict_get, CborModel, parse_all, entries_get, Cbor};

verus! {

/// Decode an unsigned little-endian base-128 integer of at most nine
/// bytes: the value and the bytes consumed.
pub open spec fn spec_varint(s: Seq<u8>) -> Option<(u64, int)>
    decreases s.len(),
{
    if s.len() == 0 {
        None
    } else if s[0] < 0x80 {
        Some(((s[0] as u64, 1)))
    } else {
        match spec_varint(s.drop_first()) {
            Some((v, c)) => if c <= 8 && v <= 0x1ffffffffffffff {
                Some(((((s[0] - 0x80) as u64 + v * 0x80) as u64, c + 1)))
            } else {
                None
            },
            None => None,
        }
    }
}

/// A decoded varint takes between one and nine bytes.
pub proof fn lemma_spec_varint_bounds(s: Seq<u8>)
    ensures
        spec_varint(s) matches Some((v, c)) ==> 1 <= c <= s.len() && c <= 9,
    decreases s.len(),
{
    if s.len() > 0 && s[0] >= 0x80 {
        lemma_spec_varint_bounds(s.drop_first());
    }
}

/// Split a binary content identifier off the head of `s`: the identifier
/// bytes and their length. The legacy two-byte-prefix form spans 34 bytes;
/// the version-1 form is three varints and a digest.
pub open spec fn spec_cid(s: Seq<u8>) -> Option<(Seq<u8>, int)> {
    if s.len() >= 2 && s[0] == 0x12 && s[1] == 0x20 {
        if s.len() >= 34 {
            Some(((s.subrange(0, 34), 34)))
        } else {
            None
        }
    } else {
        match spec_varint(s) {
            Some((ver, c1)) => if ver == 1 && c1 + 1 <= s.len() {
                match spec_varint(s.skip(c1)) {
                    Some((_codec, c2)) => match spec_varint(s.skip(c1 + c2)) {
                        Some((_hash_code, c3)) => match spec_varint(s.skip(c1 + c2 + c3)) {
                            Some((digest_len, c4)) => {
                                let total = c1 + c2 + c3 + c4 + digest_len;
                                if digest_len <= 64 && total <= s.len() {
                                    Some(((s.subrange(0, total), total)))
                                } else {
                                    None
                                }
                            },
                            None => None,
                        },
                        None => None,
                    },
                    None => None,
                }
            } else {
                None
            },
            None => None,
        }
    }
}

/// A content identifier spans at least one byte of its input and at most
/// one hundred: a digest never exceeds 64 bytes.
pub proof fn lemma_spec_cid_bounds(s: Seq<u8>)
    ensures
        spec_cid(s) matches Some((cid, c)) ==> 1 <= c <= s.len() && cid == s.subrange(0, c) && c
            <= 100,
{
    lemma_spec_varint_bounds(s);
    if !(s.len() >= 2 && s[0] == 0x12 && s[1] == 0x20) {
        match spec_varint(s) {
            Some((ver, c1)) => {
                lemma_spec_varint_bounds(s.skip(c1));
                match spec_varint(s.skip(c1)) {
                    Some((_, c2)) => {
                        lemma_spec_varint_bounds(s.skip(c1 + c2));
                        match spec_varint(s.skip(c1 + c2)) {
                            Some((_, c3)) => {
                                lemma_spec_varint_bounds(s.skip(c1 + c2 + c3));
                            },
                            None => {},
                        }
                    },
                    None => {},
                }
            },
            None => {},
        }
    }
}

/// The sections after the archive header: pairs of content identifier and
/// block bytes, in order, consuming the input exactly.
pub open spec fn spec_car_blocks(s: Seq<u8>) -> Option<Seq<(Seq<u8>, Seq<u8>)>>
    decreases s.len(),
{
    if s.len() == 0 {
        Some(Seq::empty())
    } else {
        match spec_varint(s) {
            Some((len, c)) => if c < 1 || c + len > s.len() {
                None
            } else {
                let section = s.subrange(c, c + len);
                match spec_cid(section) {
                    Some((cid, cc)) => match spec_car_blocks(s.skip(c + len)) {
                        Some(rest) => Some(seq![(cid, section.skip(cc))] + rest),
                        None => None,
                    },
                    None => None,
                }
            },
            None => None,
        }
    }
}

/// A whole archive: varint-prefixed header block, then the sections. The
/// header must be a single map with `version` equal to 1.
pub open spec fn spec_car_archive(s: Seq<u8>) -> Option<Seq<(Seq<u8>, Seq<u8>)>> {
    match spec_varint(s) {
        Some((hl, c)) => if c < 1 || c + hl > s.len() {
            None
        } else {
            match spec_parse_all(s.subrange(c, c + hl)) {
                Some(CborModel::Dict(entries)) => if dict_get(entries, "version"@) == Some(
                    CborModel::UInt(1),
                ) {
                    spec_car_blocks(s.skip(c + hl))
                } else {
                    None
                },
                _ => None,
            }
        },
        None => None,
    }
}

/// Decode the varint at `pos`.
fn parse_varint(data: &Vec<u8>, pos: usize) -> (r: Option<(u64, usize)>)
    requires
        pos <= data@.len(),
    ensures
        ({
            let sp = spec_varint(data@.skip(pos as int));
            match (r, sp) {
                (Some((v, c)), Some((sv, sc))) => v == sv && c as int == sc && pos + c
                    <= data@.len() && 1 <= c,
                (None, None) => true,
                _ => false,
            }
        }),
    decreases data@.len() - pos,
{
    let ghost s = data@.skip(pos as int);
    proof {
        lemma_spec_varint_bounds(s);
        assert(forall|k: int| 0 <= k < s.len() ==> s[k] == data@[pos + k]);
    }
    if pos == data.len() {
        return None;
    }
    let b0 = data[pos];
    if b0 < 0x80 {
        return Some((b0 as u64, 1));
    }
    proof {
        assert(data@.skip(pos as int + 1) =~= s.drop_first());
    }
    match parse_varint(data, pos + 1) {
        Some((v, c)) => {
            if c <= 8 && v <= 0x1ffffffffffffff {
                Some(((b0 - 0x80) as u64 + v * 0x80, c + 1))
            } else {
                None
            }
        },
        None => None,
    }
}

/// Split the content identifier off the section starting at `pos`,
/// returning its end position.
fn parse_cid_end(data: &Vec<u8>, pos: usize, end: usize) -> (r: Option<usize>)
    requires
        pos <= end <= data@.len(),
    ensures
        ({
            let sp = spec_cid(data@.subrange(pos as int, end as int));
            match (r, sp) {
                (Some(ce), Some((cid, c))) => ce as int == pos + c && pos < ce <= end,
                (None, None) => true,
                _ => false,
            }
        }),
{
    let ghost s = data@.subrange(pos as int, end as int);
    proof {
        lemma_spec_cid_bounds(s);
        assert(forall|k: int| 0 <= k < s.len() ==> s[k] == data@[pos + k]);
    }
    let n = end - pos;
    if n >= 2 && data[pos] == 0x12 && data[pos + 1] == 0x20 {
        if n >= 34 {
            return Some(pos + 34);
        } else {
            return None;
        }
    }
    let sub = vstd::slice::slice_subrange(data.as_slice(), pos, end);
    let subv = vstd::slice::slice_to_vec(sub);
    proof {
        assert(subv@ =~= s);
        assert(subv@.skip(0) =~= s);
    }
    match parse_varint(&subv, 0) {
        Some((ver, c1)) => {
            if !(ver == 1 && c1 + 1 <= subv.len()) {
                return None;
            }
            match parse_varint(&subv, c1) {
                Some((_codec, c2)) => {
                    match parse_varint(&subv, c1 + c2) {
                        Some((_hash_code, c3)) => {
                            match parse_varint(&subv, c1 + c2 + c3) {
                                Some((digest_len, c4)) => {
                                    let used = c1 + c2 + c3 + c4;
                                    let rem = (n - used) as u64;
                                    if digest_len <= 64 && digest_len <= rem {
                                        Some(pos + used + (digest_len as usize))
                                    } else {
                                        None
                                    }
                                },
                                None => None,
                            }
                        },
                        None => None,
                    }
                },
                None => None,
            }
        },
        None => None,
    }
}

/// Decode every section from `pos` to the end of the archive.
#[verifier::rlimit(50)]
fn parse_car_blocks(data: &Vec<u8>, pos: usize) -> (r: Option<Vec<(Vec<u8>, Vec<u8>)>>)
    requires
        pos <= data@.len(),
    ensures
        ({
            let sp = spec_car_blocks(data@.skip(pos as int));
            match (r, sp) {
                (Some(blocks), Some(sblocks)) => block_models_of(blocks@) == sblocks,
                (None, None) => true,
                _ => false,
            }
        }),
    decreases data@.len() - pos,
{
    let ghost s = data@.skip(pos as int);
    proof {
        assert(forall|k: int| 0 <= k < s.len() ==> s[k] == data@[pos + k]);
    }
    if pos == data.len() {
        return Some(Vec::new());
    }
    match parse_varint(data, pos) {
        None => None,
        Some((len, c)) => {
            let rem = (data.len() - (pos + c)) as u64;
            if len > rem {
                return None;
            }
            let start = pos + c;
            let end = start + (len as usize);
            proof {
                assert(data@.subrange(start as int, end as int) =~= s.subrange(
                    c as int,
                    c + len as int,
                ));
            }
            match parse_cid_end(data, start, end) {
                None => None,
                Some(ce) => {
                    let cid = vstd::slice::slice_to_vec(
                        vstd::slice::slice_subrange(data.as_slice(), start, ce),
                    );
                    let body = vstd::slice::slice_to_vec(
                        vstd::slice::slice_subrange(data.as_slice(), ce, end),
                    );
                    proof {
                        let section = s.subrange(c as int, c + len as int);
                        let sp_cid = spec_cid(section);
                        lemma_spec_cid_bounds(section);
                        assert(cid@ =~= sp_cid->Some_0.0);
                        assert(body@ =~= section.skip(sp_cid->Some_0.1));
                        assert(data@.skip(end as int) =~= s.skip(c + len as int));
                    }
                    match parse_car_blocks(data, end) {
                        None => None,
                        Some(rest) => {
                            let mut blocks = rest;
                            let ghost tail = blocks@;
                            blocks.insert(0, (cid, body));
                            proof {
                                assert(blocks@ =~= seq![(cid, body)] + tail);
                                lemma_block_models_of_cons((cid, body), tail);
                            }
                            Some(blocks)
                        },
                    }
                },
            }
        },
    }
}

/// The models of decoded sections.
pub open spec fn block_models_of(s: Seq<(Vec<u8>, Vec<u8>)>) -> Seq<(Seq<u8>, Seq<u8>)>
    decreases s,
{
    if s.len() == 0 {
        Seq::empty()
    } else {
        seq![(s[0].0@, s[0].1@)] + block_models_of(s.subrange(1, s.len() as int))
    }
}

/// Element-wise reading of [`block_models_of`].
pub proof fn lemma_block_models_of(s: Seq<(Vec<u8>, Vec<u8>)>)
    ensures
        block_models_of(s).len() == s.len(),
        forall|i: int| 0 <= i < s.len() ==> block_models_of(s)[i] == (
        #[trigger] s[i].0@,
        s[i].1@,
        ),
    decreases s.len(),
{
    if s.len() > 0 {
        let t = s.subrange(1, s.len() as int);
        lemma_block_models_of(t);
        assert(forall|i: int| 1 <= i < s.len() ==> t[i - 1] == #[trigger] s[i]);
    }
}

proof fn lemma_block_models_of_cons(e: (Vec<u8>, Vec<u8>), t: Seq<(Vec<u8>, Vec<u8>)>)
    ensures
        block_models_of(seq![e] + t) == seq![(e.0@, e.1@)] + block_models_of(t),
{
    let s = seq![e] + t;
    assert(s.subrange(1, s.len() as int) =~= t);
}

/// Decode a whole block archive: the header is checked to be a version-1
/// map, and the sections come back as (identifier, bytes) pairs in wire
/// order. The result is exactly what [`spec_car_archive`] says.
pub fn parse_car_archive(data: &Vec<u8>) -> (r: Option<Vec<(Vec<u8>, Vec<u8>)>>)
    ensures
        ({
            let sp = spec_car_archive(data@);
            match (r, sp) {
                (Some(blocks), Some(sblocks)) => block_models_of(blocks@) == sblocks,
                (None, None) => true,
                _ => false,
            }
        }),
{
    proof {
        assert(data@.skip(0) =~= data@);
    }
    match parse_varint(data, 0) {
        None => None,
        Some((hl, c)) => {
            let rem = (data.len() - c) as u64;
            if hl > rem {
                return None;
            }
            let end = c + (hl as usize);
            let header = vstd::slice::slice_to_vec(
                vstd::slice::slice_subrange(data.as_slice(), c, end),
            );
            proof {
                assert(header@ =~= data@.subrange(c as int, c + hl as int));
            }
            match parse_all(&header) {
                Some(Cbor::Dict(entries)) => {
                    match entries_get(&entries, "version") {
                        Some(v) => {
                            let ok = match v {
                                Cbor::UInt(n) => *n == 1,
                                _ => false,
                            };
                            if !ok {
                                return None;
                            }
                            proof {
                                assert(data@.skip(end as int) =~= data@.skip(c + hl as int));
                            }
                            parse_car_blocks(data, end)
                        },
                        None => None,
                    }
                },
                _ => None,
            }
        },
    }
}

/// Every identifier in a decoded archive is at most one hundred bytes.
pub proof fn lemma_car_blocks_key_len(s: Seq<u8>)
    ensures
        spec_car_blocks(s) matches Some(blocks) ==> forall|i: int|
            0 <= i < blocks.len() ==> (#[trigger] blocks[i]).0.len() <= 100,
    decreases s.len(),
{
    if s.len() > 0 {
        match spec_varint(s) {
            Some((len, c)) => {
                if !(c < 1 || c + len > s.len()) {
                    let section = s.subrange(c, c + len);
                    lemma_spec_cid_bounds(section);
                    lemma_car_blocks_key_len(s.skip(c + len));
                    match spec_cid(section) {
                        Some((cid, cc)) => {
                            match spec_car_blocks(s.skip(c + len)) {
                                Some(rest) => {
                                    let whole = seq![(cid, section.skip(cc))] + rest;
                                    assert(forall|i: int|
                                        1 <= i < whole.len() ==> whole[i] == #[trigger] rest[i
                                            - 1]);
                                    assert(whole[0].0.len() <= 100);
                                },
                                None => {},
                            }
                        },
                        None => {},
                    }
                }
            },
            None => {},
        }
    }
}

/// Every identifier in a decoded archive is at most one hundred bytes.
pub proof fn lemma_car_archive_key_len(s: Seq<u8>)
    ensures
        spec_car_archive(s) matches Some(blocks) ==> forall|i: int|
            0 <= i < blocks.len() ==> (#[trigger] blocks[i]).0.len() <= 100,
{
    match spec_varint(s) {
        Some((hl, c)) => {
            if !(c < 1 || c + hl > s.len()) {
                lemma_car_blocks_key_len(s.skip(c + hl));
            }
        },
        None => {},
    }
}

} // verus!
