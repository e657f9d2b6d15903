//! The byte codec the gossip boundary uses: `serialize` lays a block out as
//! bytes, `deserialize` reads one back, and the two are proved inverse.
//!
//! The layout is length-prefixed and little-endian: the timestamp, one
//! validity byte, the four strings (each as a byte count followed by its
//! UTF-8 bytes), then the payload as an element count followed by each
//! element in string form.

use vstd::prelude::*;

use vstd::bytes::lemma_auto_spec_u64_to_from_le_bytes;
use vstd::bytes::spec_u64_from_le_bytes;
use vstd::bytes::spec_u64_to_le_bytes;
use vstd::bytes::u64_from_le_bytes;
use vstd::bytes::u64_to_le_bytes;
use vstd::slice::slice_index_get;
use vstd::slice::slice_subrange;
use vstd::slice::slice_to_vec;
use vstd::utf8::decode_utf8;
use vstd::utf8::encode_utf8;
use vstd::utf8::encode_utf8_decode_utf8;
use vstd::utf8::encode_utf8_valid_utf8;
use vstd::utf8::valid_utf8;

use crate::block::Block;
use crate::block::BlockView;

verus! {

/// The one failure decoding reports: the bytes are not the serialization of
/// any block.
#[derive(Clone, Copy, Debug, PartialEq, Eq, Structural)]
pub struct DecodeError;

/// The byte form of a string: its UTF-8 byte count, then its UTF-8 bytes.
pub open spec fn spec_encode_str(s: Seq<char>) -> Seq<u8> {
    spec_u64_to_le_bytes(encode_utf8(s).len() as u64) + encode_utf8(s)
}

/// The byte form of a payload's elements, in order.
pub open spec fn spec_encode_payload(p: Seq<Seq<char>>) -> Seq<u8>
    decreases p.len(),
{
    if p.len() == 0 {
        Seq::empty()
    } else {
        spec_encode_str(p[0]) + spec_encode_payload(p.drop_first())
    }
}

/// The byte form of the validity flag.
pub open spec fn spec_bool_byte(v: bool) -> u8 {
    if v {
        1u8
    } else {
        0u8
    }
}

/// Everything before the payload elements: timestamp, validity byte, the
/// four strings, and the payload element count.
pub open spec fn spec_serialize_header(b: BlockView) -> Seq<u8> {
    spec_u64_to_le_bytes(b.timestamp) + seq![spec_bool_byte(b.valid)] + spec_encode_str(
        b.block_hash,
    ) + spec_encode_str(b.prev_hash) + spec_encode_str(b.validator) + spec_encode_str(b.signature)
        + spec_u64_to_le_bytes(b.block_data.len() as u64)
}

/// The byte form of a whole block.
pub open spec fn spec_serialize(b: BlockView) -> Seq<u8> {
    spec_serialize_header(b) + spec_encode_payload(b.block_data)
}

/// Whether a block's byte form loses nothing to the length prefixes: every
/// string's byte count and the payload's element count fit in 64 bits. Every
/// block held in memory satisfies this; only the machine limit forces it.
pub open spec fn spec_serializable(b: BlockView) -> bool {
    &&& encode_utf8(b.block_hash).len() <= u64::MAX
    &&& encode_utf8(b.prev_hash).len() <= u64::MAX
    &&& encode_utf8(b.validator).len() <= u64::MAX
    &&& encode_utf8(b.signature).len() <= u64::MAX
    &&& b.block_data.len() <= u64::MAX
    &&& forall|i: int|
        0 <= i < b.block_data.len() ==> encode_utf8(#[trigger] b.block_data[i]).len() <= u64::MAX
}

/// Reads a 64-bit count from the front of `bytes`: the count and what
/// follows it, or nothing when fewer than eight bytes remain.
pub open spec fn spec_parse_u64(bytes: Seq<u8>) -> Option<(u64, Seq<u8>)> {
    if bytes.len() >= 8 {
        Some((spec_u64_from_le_bytes(bytes.take(8)), bytes.skip(8)))
    } else {
        None
    }
}

/// Reads the validity byte: only 0 and 1 decode.
pub open spec fn spec_parse_bool(bytes: Seq<u8>) -> Option<(bool, Seq<u8>)> {
    if bytes.len() >= 1 {
        if bytes[0] == 1u8 {
            Some((true, bytes.skip(1)))
        } else if bytes[0] == 0u8 {
            Some((false, bytes.skip(1)))
        } else {
            None
        }
    } else {
        None
    }
}

/// Reads one length-prefixed string: its characters and what follows, or
/// nothing when the bytes run short or are not UTF-8.
pub open spec fn spec_parse_str(bytes: Seq<u8>) -> Option<(Seq<char>, Seq<u8>)> {
    match spec_parse_u64(bytes) {
        None => None,
        Some((n, rest)) => {
            if rest.len() >= n && valid_utf8(rest.take(n as int)) {
                Some((decode_utf8(rest.take(n as int)), rest.skip(n as int)))
            } else {
                None
            }
        },
    }
}

/// Reads `count` length-prefixed strings in order.
pub open spec fn spec_parse_payload(bytes: Seq<u8>, count: nat) -> Option<(Seq<Seq<char>>, Seq<u8>)>
    decreases count,
{
    if count == 0 {
        Some((Seq::empty(), bytes))
    } else {
        match spec_parse_str(bytes) {
            None => None,
            Some((s, rest)) => match spec_parse_payload(rest, (count - 1) as nat) {
                None => None,
                Some((p, rest2)) => Some((seq![s] + p, rest2)),
            },
        }
    }
}

/// Reads a whole block back: the fields in layout order, with nothing left
/// over. `None` exactly when the bytes are not the serialization of a block.
pub open spec fn spec_deserialize(bytes: Seq<u8>) -> Option<BlockView> {
    match spec_parse_u64(bytes) {
        None => None,
        Some((timestamp, r1)) => match spec_parse_bool(r1) {
            None => None,
            Some((valid, r2)) => match spec_parse_str(r2) {
                None => None,
                Some((block_hash, r3)) => match spec_parse_str(r3) {
                    None => None,
                    Some((prev_hash, r4)) => match spec_parse_str(r4) {
                        None => None,
                        Some((validator, r5)) => match spec_parse_str(r5) {
                            None => None,
                            Some((signature, r6)) => match spec_parse_u64(r6) {
                                None => None,
                                Some((count, r7)) => match spec_parse_payload(r7, count as nat) {
                                    None => None,
                                    Some((block_data, r8)) => {
                                        if r8.len() == 0 {
                                            Some(
                                                BlockView {
                                                    block_hash,
                                                    prev_hash,
                                                    validator,
                                                    signature,
                                                    block_data,
                                                    valid,
                                                    timestamp,
                                                },
                                            )
                                        } else {
                                            None
                                        }
                                    },
                                },
                            },
                        },
                    },
                },
            },
        },
    }
}

proof fn lemma_parse_u64_exact(x: u64, rest: Seq<u8>)
    ensures
        spec_parse_u64(spec_u64_to_le_bytes(x) + rest) == Some((x, rest)),
{
    lemma_auto_spec_u64_to_from_le_bytes();
    let enc = spec_u64_to_le_bytes(x);
    let all = enc + rest;
    assert(all.take(8) =~= enc);
    assert(all.skip(8) =~= rest);
}

proof fn lemma_parse_bool_exact(v: bool, rest: Seq<u8>)
    ensures
        spec_parse_bool(seq![spec_bool_byte(v)] + rest) == Some((v, rest)),
{
    let all = seq![spec_bool_byte(v)] + rest;
    assert(all[0] == spec_bool_byte(v));
    assert(all.skip(1) =~= rest);
}

proof fn lemma_parse_str_exact(s: Seq<char>, rest: Seq<u8>)
    requires
        encode_utf8(s).len() <= u64::MAX,
    ensures
        spec_parse_str(spec_encode_str(s) + rest) == Some((s, rest)),
{
    let eu = encode_utf8(s);
    let n = eu.len() as u64;
    let tail = eu + rest;
    assert(spec_encode_str(s) + rest =~= spec_u64_to_le_bytes(n) + tail);
    lemma_parse_u64_exact(n, tail);
    assert(tail.take(n as int) =~= eu);
    assert(tail.skip(n as int) =~= rest);
    encode_utf8_valid_utf8(s);
    encode_utf8_decode_utf8(s);
}

proof fn lemma_parse_payload_exact(p: Seq<Seq<char>>, rest: Seq<u8>)
    requires
        forall|i: int| 0 <= i < p.len() ==> encode_utf8(#[trigger] p[i]).len() <= u64::MAX,
    ensures
        spec_parse_payload(spec_encode_payload(p) + rest, p.len()) == Some((p, rest)),
    decreases p.len(),
{
    if p.len() == 0 {
        assert(spec_encode_payload(p) + rest =~= rest);
    } else {
        let tail = spec_encode_payload(p.drop_first()) + rest;
        assert(spec_encode_payload(p) + rest =~= spec_encode_str(p[0]) + tail);
        lemma_parse_str_exact(p[0], tail);
        assert(forall|i: int|
            0 <= i < p.drop_first().len() ==> encode_utf8(#[trigger] p.drop_first()[i]).len()
                <= u64::MAX);
        lemma_parse_payload_exact(p.drop_first(), rest);
        assert(seq![p[0]] + p.drop_first() =~= p);
    }
}

/// The round-trip law: reading back the byte form of any block whose length
/// prefixes fit the layout yields exactly that block, field for field.
pub proof fn lemma_serialize_deserialize(b: BlockView)
    requires
        spec_serializable(b),
    ensures
        spec_deserialize(spec_serialize(b)) == Some(b),
{
    let ts = spec_u64_to_le_bytes(b.timestamp);
    let vb = seq![spec_bool_byte(b.valid)];
    let s1 = spec_encode_str(b.block_hash);
    let s2 = spec_encode_str(b.prev_hash);
    let s3 = spec_encode_str(b.validator);
    let s4 = spec_encode_str(b.signature);
    let cnt = spec_u64_to_le_bytes(b.block_data.len() as u64);
    let pl = spec_encode_payload(b.block_data);
    let all = spec_serialize(b);
    assert(all =~= ts + (vb + (s1 + (s2 + (s3 + (s4 + (cnt + pl)))))));
    lemma_parse_u64_exact(b.timestamp, vb + (s1 + (s2 + (s3 + (s4 + (cnt + pl))))));
    lemma_parse_bool_exact(b.valid, s1 + (s2 + (s3 + (s4 + (cnt + pl)))));
    lemma_parse_str_exact(b.block_hash, s2 + (s3 + (s4 + (cnt + pl))));
    lemma_parse_str_exact(b.prev_hash, s3 + (s4 + (cnt + pl)));
    lemma_parse_str_exact(b.validator, s4 + (cnt + pl));
    lemma_parse_str_exact(b.signature, cnt + pl);
    lemma_parse_u64_exact(b.block_data.len() as u64, pl);
    assert(pl =~= pl + Seq::<u8>::empty());
    lemma_parse_payload_exact(b.block_data, Seq::empty());
    assert((b.block_data.len() as u64) as nat == b.block_data.len());
}

/// Appends the byte form of `s` to `out`.
fn write_str(out: &mut Vec<u8>, s: &String)
    ensures
        final(out)@ == old(out)@ + spec_encode_str(s@),
{
    let bs = s.as_str().as_bytes();
    let n = bs.len() as u64;
    let mut lenb = u64_to_le_bytes(n);
    out.append(&mut lenb);
    let mut data = slice_to_vec(bs);
    out.append(&mut data);
}

/// Lays `b` out as bytes, in the layout the parsing side reads.
pub fn serialize(b: &Block) -> (r: Vec<u8>)
    ensures
        r@ == spec_serialize(b@),
{
    let mut out: Vec<u8> = Vec::new();
    let mut ts = u64_to_le_bytes(b.timestamp);
    out.append(&mut ts);
    out.push(if b.valid { 1u8 } else { 0u8 });
    write_str(&mut out, &b.block_hash);
    write_str(&mut out, &b.prev_hash);
    write_str(&mut out, &b.validator);
    write_str(&mut out, &b.signature);
    let count = b.block_data.len() as u64;
    let mut cb = u64_to_le_bytes(count);
    out.append(&mut cb);
    assert(out@ =~= spec_serialize_header(b@));
    let ghost dv = b@.block_data;
    let n = b.block_data.len();
    let mut i: usize = 0;
    while i < n
        invariant
            n == b.block_data@.len(),
            0 <= i <= n,
            dv == b@.block_data,
            out@ == spec_serialize_header(b@) + spec_encode_payload(dv.take(i as int)),
        decreases n - i,
    {
        proof {
            lemma_encode_payload_snoc(dv, i as int);
            assert(dv[i as int] == b.block_data@[i as int]@);
        }
        write_str(&mut out, &b.block_data[i]);
        i = i + 1;
    }
    proof {
        assert(dv.take(n as int) =~= dv);
    }
    out
}

proof fn lemma_encode_payload_push(p: Seq<Seq<char>>, s: Seq<char>)
    ensures
        spec_encode_payload(p.push(s)) == spec_encode_payload(p) + spec_encode_str(s),
    decreases p.len(),
{
    if p.len() == 0 {
        assert(p =~= Seq::<Seq<char>>::empty());
        assert(p.push(s)[0] == s);
        assert(p.push(s).drop_first() =~= p);
        assert(spec_encode_payload(p.push(s)) == spec_encode_str(s) + spec_encode_payload(p));
        assert(spec_encode_payload(p) == Seq::<u8>::empty());
        assert(spec_encode_str(s) + Seq::<u8>::empty() =~= Seq::<u8>::empty() + spec_encode_str(
            s,
        ));
    } else {
        assert(p.push(s).drop_first() =~= p.drop_first().push(s));
        assert(p.push(s)[0] == p[0]);
        assert(spec_encode_payload(p.push(s)) == spec_encode_str(p[0]) + spec_encode_payload(
            p.drop_first().push(s),
        ));
        lemma_encode_payload_push(p.drop_first(), s);
        assert(spec_encode_str(p[0]) + (spec_encode_payload(p.drop_first()) + spec_encode_str(s))
            =~= (spec_encode_str(p[0]) + spec_encode_payload(p.drop_first())) + spec_encode_str(
            s,
        ));
        assert(spec_encode_payload(p) == spec_encode_str(p[0]) + spec_encode_payload(
            p.drop_first(),
        ));
    }
}

proof fn lemma_encode_payload_snoc(p: Seq<Seq<char>>, i: int)
    requires
        0 <= i < p.len(),
    ensures
        spec_encode_payload(p.take(i + 1)) == spec_encode_payload(p.take(i)) + spec_encode_str(
            p[i],
        ),
{
    assert(p.take(i + 1) =~= p.take(i).push(p[i]));
    lemma_encode_payload_push(p.take(i), p[i]);
}

/// Relies on std `str::from_utf8` (with `to_owned`): decodes the bytes as
/// UTF-8, succeeding exactly on valid UTF-8 and returning the string those
/// bytes spell.
#[verifier::external_body]
fn bytes_to_string(v: &[u8]) -> (r: Option<String>)
    ensures
        r is Some <==> valid_utf8(v@),
        r matches Some(s) ==> encode_utf8(s@) == v@,
{
    match core::str::from_utf8(v) {
        Ok(s) => Some(s.to_owned()),
        Err(_) => None,
    }
}

fn read_u64(bytes: &[u8], pos: usize) -> (r: Option<(u64, usize)>)
    requires
        pos <= bytes@.len(),
    ensures
        r is None <==> spec_parse_u64(bytes@.skip(pos as int)) is None,
        r matches Some((x, newpos)) ==> pos < newpos <= bytes@.len() && spec_parse_u64(
            bytes@.skip(pos as int),
        ) == Some((x, bytes@.skip(newpos as int))),
{
    if bytes.len() - pos >= 8 {
        let sl = slice_subrange(bytes, pos, pos + 8);
        let x = u64_from_le_bytes(sl);
        proof {
            assert(bytes@.skip(pos as int).take(8) =~= bytes@.subrange(
                pos as int,
                pos as int + 8,
            ));
            assert(bytes@.skip(pos as int).skip(8) =~= bytes@.skip(pos as int + 8));
        }
        Some((x, pos + 8))
    } else {
        None
    }
}

fn read_bool(bytes: &[u8], pos: usize) -> (r: Option<(bool, usize)>)
    requires
        pos <= bytes@.len(),
    ensures
        r is None <==> spec_parse_bool(bytes@.skip(pos as int)) is None,
        r matches Some((v, newpos)) ==> pos < newpos <= bytes@.len() && spec_parse_bool(
            bytes@.skip(pos as int),
        ) == Some((v, bytes@.skip(newpos as int))),
{
    if pos < bytes.len() {
        let byte = *slice_index_get(bytes, pos);
        proof {
            assert(bytes@.skip(pos as int)[0] == bytes@[pos as int]);
            assert(bytes@.skip(pos as int).skip(1) =~= bytes@.skip(pos as int + 1));
        }
        if byte == 1u8 {
            Some((true, pos + 1))
        } else if byte == 0u8 {
            Some((false, pos + 1))
        } else {
            None
        }
    } else {
        None
    }
}

fn read_str(bytes: &[u8], pos: usize) -> (r: Option<(String, usize)>)
    requires
        pos <= bytes@.len(),
    ensures
        r is None <==> spec_parse_str(bytes@.skip(pos as int)) is None,
        r matches Some((s, newpos)) ==> pos <= newpos <= bytes@.len() && spec_parse_str(
            bytes@.skip(pos as int),
        ) == Some((s@, bytes@.skip(newpos as int))),
{
    match read_u64(bytes, pos) {
        None => None,
        Some((n, p1)) => {
            let rem = bytes.len() - p1;
            if n > rem as u64 {
                proof {
                    let rest = bytes@.skip(p1 as int);
                    assert(rest.len() < n);
                }
                return None;
            }
            let n_us = n as usize;
            let sl = slice_subrange(bytes, p1, p1 + n_us);
            proof {
                assert(bytes@.skip(p1 as int).take(n as int) =~= sl@);
                assert(bytes@.skip(p1 as int).skip(n as int) =~= bytes@.skip(
                    p1 as int + n as int,
                ));
            }
            match bytes_to_string(sl) {
                None => None,
                Some(s) => {
                    proof {
                        encode_utf8_decode_utf8(s@);
                    }
                    Some((s, p1 + n_us))
                },
            }
        },
    }
}

/// What parsing the remaining elements yields, seen from a prefix already
/// parsed: the prefix is put before whatever the rest parses to.
spec fn spec_parse_payload_from(prefix: Seq<Seq<char>>, bytes: Seq<u8>, count: nat) -> Option<
    (Seq<Seq<char>>, Seq<u8>),
> {
    match spec_parse_payload(bytes, count) {
        None => None,
        Some((p, rest)) => Some((prefix + p, rest)),
    }
}

proof fn lemma_deep_view_push(v1: Vec<String>, v2: Vec<String>, s: String)
    requires
        v2@ == v1@.push(s),
    ensures
        v2.deep_view() == v1.deep_view().push(s@),
{
    assert forall|i: int| 0 <= i < v2.deep_view().len() implies v2.deep_view()[i]
        == v1.deep_view().push(s@)[i] by {
        if i < v1@.len() {
            assert(v2@[i] == v1@[i]);
        } else {
            assert(v2@[i] == s);
        }
    }
    assert(v2.deep_view() =~= v1.deep_view().push(s@));
}

fn read_payload(bytes: &[u8], pos: usize, count: u64) -> (r: Option<(Vec<String>, usize)>)
    requires
        pos <= bytes@.len(),
    ensures
        r is None <==> spec_parse_payload(bytes@.skip(pos as int), count as nat) is None,
        r matches Some((v, newpos)) ==> pos <= newpos <= bytes@.len() && spec_parse_payload(
            bytes@.skip(pos as int),
            count as nat,
        ) == Some((v.deep_view(), bytes@.skip(newpos as int))),
{
    let mut acc: Vec<String> = Vec::new();
    let mut cur = pos;
    let mut i: u64 = 0;
    proof {
        assert(acc.deep_view() =~= Seq::<Seq<char>>::empty());
    }
    while i < count
        invariant
            i <= count,
            pos <= cur <= bytes@.len(),
            spec_parse_payload_from(acc.deep_view(), bytes@.skip(cur as int), (count - i) as nat)
                == spec_parse_payload_from(
                Seq::empty(),
                bytes@.skip(pos as int),
                count as nat,
            ),
        decreases count - i,
    {
        let ghost acc0 = acc.deep_view();
        let ghost rest0 = bytes@.skip(cur as int);
        let ghost k = (count - i) as nat;
        match read_str(bytes, cur) {
            None => {
                proof {
                    assert(spec_parse_payload(rest0, k) is None);
                }
                return None;
            },
            Some((s, newpos)) => {
                proof {
                    let rest1 = bytes@.skip(newpos as int);
                    assert(spec_parse_str(rest0) == Some((s@, rest1)));
                    match spec_parse_payload(rest1, (k - 1) as nat) {
                        None => {},
                        Some((p, r2)) => {
                            assert(acc0 + (seq![s@] + p) =~= acc0.push(s@) + p);
                        },
                    }
                }
                let ghost acc_before = acc;
                acc.push(s);
                proof {
                    lemma_deep_view_push(acc_before, acc, s);
                }
                cur = newpos;
            },
        }
        i = i + 1;
    }
    proof {
        let final_parse = spec_parse_payload(bytes@.skip(cur as int), 0);
        assert(acc.deep_view() + Seq::<Seq<char>>::empty() =~= acc.deep_view());
        assert(Seq::<Seq<char>>::empty() + acc.deep_view() =~= acc.deep_view());
    }
    Some((acc, cur))
}

/// Reads a block back from `bytes`. Succeeds exactly when the bytes are the
/// serialization of a block, with nothing trailing, and then yields that
/// block field for field.
pub fn deserialize(bytes: &[u8]) -> (r: Result<Block, DecodeError>)
    ensures
        r matches Ok(b) ==> spec_deserialize(bytes@) == Some(b@),
        r is Err <==> spec_deserialize(bytes@) is None,
{
    proof {
        assert(bytes@.skip(0) =~= bytes@);
    }
    let (timestamp, p1) = match read_u64(bytes, 0) {
        Some(v) => v,
        None => return Err(DecodeError),
    };
    let (valid, p2) = match read_bool(bytes, p1) {
        Some(v) => v,
        None => return Err(DecodeError),
    };
    let (block_hash, p3) = match read_str(bytes, p2) {
        Some(v) => v,
        None => return Err(DecodeError),
    };
    let (prev_hash, p4) = match read_str(bytes, p3) {
        Some(v) => v,
        None => return Err(DecodeError),
    };
    let (validator, p5) = match read_str(bytes, p4) {
        Some(v) => v,
        None => return Err(DecodeError),
    };
    let (signature, p6) = match read_str(bytes, p5) {
        Some(v) => v,
        None => return Err(DecodeError),
    };
    let (count, p7) = match read_u64(bytes, p6) {
        Some(v) => v,
        None => return Err(DecodeError),
    };
    let (block_data, p8) = match read_payload(bytes, p7, count) {
        Some(v) => v,
        None => return Err(DecodeError),
    };
    if p8 != bytes.len() {
        proof {
            assert(bytes@.skip(p8 as int).len() > 0);
        }
        return Err(DecodeError);
    }
    proof {
        assert(bytes@.skip(p8 as int).len() == 0);
    }
    Ok(Block { block_hash, prev_hash, validator, signature, block_data, valid, timestamp })
}

} // verus!
