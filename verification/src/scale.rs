//! SCALE encoding of the primitive values the library puts on the wire, and the `Data`
//! abstraction of a type with a verified encoding and a decoding that inverts it.
use parity_scale_codec::Compact;
use vstd::prelude::*;

use crate::primitives::BlockHash;

verus! {

/// Little-endian bytes of a `u16`.
pub open spec fn le_u16(v: u16) -> Seq<u8> {
    seq![(v % 256) as u8, (v / 256) as u8]
}

/// Little-endian bytes of a `u32`.
pub open spec fn le_u32(v: u32) -> Seq<u8> {
    seq![
        (v % 256) as u8,
        ((v / 256) % 256) as u8,
        ((v / 65536) % 256) as u8,
        (v / 16777216) as u8,
    ]
}

/// The compact (variable-length) SCALE encoding of a `u32`.
pub open spec fn compact_u32(v: u32) -> Seq<u8> {
    if v < 64 {
        seq![(v * 4) as u8]
    } else if v < 16384 {
        le_u16((v * 4 + 1) as u16)
    } else if v < 1073741824 {
        le_u32((v * 4 + 2) as u32)
    } else {
        seq![3u8] + le_u32(v)
    }
}

/// `prefix` is the beginning of `bytes`.
pub open spec fn starts_with(bytes: Seq<u8>, prefix: Seq<u8>) -> bool {
    prefix.len() <= bytes.len() && bytes.subrange(0, prefix.len() as int) == prefix
}

pub proof fn lemma_le_u16_injective(a: u16, b: u16)
    requires
        le_u16(a) == le_u16(b),
    ensures
        a == b,
{
    assert(le_u16(a)[0] == le_u16(b)[0]);
    assert(le_u16(a)[1] == le_u16(b)[1]);
}

pub proof fn lemma_le_u32_injective(a: u32, b: u32)
    requires
        le_u32(a) == le_u32(b),
    ensures
        a == b,
{
    assert(le_u32(a)[0] == le_u32(b)[0]);
    assert(le_u32(a)[1] == le_u32(b)[1]);
    assert(le_u32(a)[2] == le_u32(b)[2]);
    assert(le_u32(a)[3] == le_u32(b)[3]);
}

pub proof fn lemma_starts_with_concat(a: Seq<u8>, rest: Seq<u8>)
    ensures
        starts_with(a + rest, a),
        (a + rest).subrange(a.len() as int, (a + rest).len() as int) == rest,
{
    assert((a + rest).subrange(0, a.len() as int) =~= a);
    assert((a + rest).subrange(a.len() as int, (a + rest).len() as int) =~= rest);
}

/// Length of the compact encoding of `v`.
pub fn compact_u32_len(v: u32) -> (res: usize)
    ensures
        res == compact_u32(v).len(),
{
    if v < 64 {
        1
    } else if v < 16384 {
        2
    } else if v < 1073741824 {
        4
    } else {
        5
    }
}

/// `Encode::encode` of parity-scale-codec on a `u16`: its two little-endian bytes.
#[verifier::external_body]
pub(crate) fn encode_u16(v: u16) -> (res: Vec<u8>)
    ensures
        res@ == le_u16(v),
{
    parity_scale_codec::Encode::encode(&v)
}

/// `Encode::encode` of parity-scale-codec on a `u32`: its four little-endian bytes.
#[verifier::external_body]
pub(crate) fn encode_u32(v: u32) -> (res: Vec<u8>)
    ensures
        res@ == le_u32(v),
{
    parity_scale_codec::Encode::encode(&v)
}

/// `Encode::encode` of parity-scale-codec on a `Compact<u32>`: the compact encoding of `v`.
#[verifier::external_body]
pub(crate) fn encode_compact_u32(v: u32) -> (res: Vec<u8>)
    ensures
        res@ == compact_u32(v),
{
    parity_scale_codec::Encode::encode(&Compact(v))
}

/// `Decode::decode` of parity-scale-codec for a `u16` read from the start of `bytes`: it fails
/// exactly when fewer than two bytes are there, and otherwise reads the little-endian value.
#[verifier::external_body]
pub(crate) fn decode_u16(bytes: &[u8]) -> (res: Option<u16>)
    ensures
        res is None <==> bytes@.len() < 2,
        res matches Some(v) ==> starts_with(bytes@, le_u16(v)),
{
    <u16 as parity_scale_codec::Decode>::decode(&mut &bytes[..]).ok()
}

/// `Decode::decode` of parity-scale-codec for a `u32` read from the start of `bytes`: it fails
/// exactly when fewer than four bytes are there, and otherwise reads the little-endian value.
#[verifier::external_body]
pub(crate) fn decode_u32(bytes: &[u8]) -> (res: Option<u32>)
    ensures
        res is None <==> bytes@.len() < 4,
        res matches Some(v) ==> starts_with(bytes@, le_u32(v)),
{
    <u32 as parity_scale_codec::Decode>::decode(&mut &bytes[..]).ok()
}

/// `Decode::decode` of parity-scale-codec for a `Compact<u32>` read from the start of `bytes`.
/// The decoder accepts canonical encodings only, so it succeeds exactly when `bytes` starts
/// with the compact encoding of some value, and then returns that value.
#[verifier::external_body]
pub(crate) fn decode_compact_u32(bytes: &[u8]) -> (res: Option<u32>)
    ensures
        res matches Some(v) ==> starts_with(bytes@, compact_u32(v)),
        res is None ==> forall|v: u32| !starts_with(bytes@, #[trigger] compact_u32(v)),
{
    <Compact<u32> as parity_scale_codec::Decode>::decode(&mut &bytes[..]).ok().map(|c| c.0)
}

/// The compact encoding is prefix-free: a byte string starts with the encoding of at most
/// one value.
pub proof fn lemma_compact_u32_unique(bytes: Seq<u8>, a: u32, b: u32)
    requires
        starts_with(bytes, compact_u32(a)),
        starts_with(bytes, compact_u32(b)),
    ensures
        a == b,
{
    let ea = compact_u32(a);
    let eb = compact_u32(b);
    assert(bytes[0] == ea[0]);
    assert(bytes[0] == eb[0]);
    let b0 = bytes[0];
    // the mode is held in the two lowest bits of the first byte
    if a < 64 {
        assert(ea[0] == (a * 4) as u8);
        assert(ea[0] % 4 == 0);
    } else if a < 16384 {
        assert(ea[0] % 4 == 1);
    } else if a < 1073741824 {
        assert(ea[0] % 4 == 2);
    } else {
        assert(ea[0] == 3);
    }
    if b < 64 {
        assert(eb[0] % 4 == 0);
    } else if b < 16384 {
        assert(eb[0] % 4 == 1);
    } else if b < 1073741824 {
        assert(eb[0] % 4 == 2);
    } else {
        assert(eb[0] == 3);
    }
    assert(ea.len() == eb.len());
    assert(ea =~= bytes.subrange(0, ea.len() as int));
    assert(eb =~= bytes.subrange(0, eb.len() as int));
    assert(ea =~= eb);
    if a < 64 {
    } else if a < 16384 {
        lemma_le_u16_injective((a * 4 + 1) as u16, (b * 4 + 1) as u16);
    } else if a < 1073741824 {
        lemma_le_u32_injective((a * 4 + 2) as u32, (b * 4 + 2) as u32);
    } else {
        assert(ea.subrange(1, 5) =~= le_u32(a));
        assert(eb.subrange(1, 5) =~= le_u32(b));
        lemma_le_u32_injective(a, b);
    }
}

/// `Encode::encode` of parity-scale-codec on a 32-byte array: the bytes themselves.
#[verifier::external_body]
pub(crate) fn encode_bytes32(v: &[u8; 32]) -> (res: Vec<u8>)
    ensures
        res@ == v@,
{
    parity_scale_codec::Encode::encode(v)
}

/// `Decode::decode` of parity-scale-codec for a 32-byte array read from the start of `bytes`:
/// it fails exactly when fewer than 32 bytes are there, and otherwise copies the first 32.
#[verifier::external_body]
pub(crate) fn decode_bytes32(bytes: &[u8]) -> (res: Option<[u8; 32]>)
    ensures
        res is None <==> bytes@.len() < 32,
        res matches Some(v) ==> starts_with(bytes@, v@),
{
    <[u8; 32] as parity_scale_codec::Decode>::decode(&mut &bytes[..]).ok()
}

/// A value with a byte encoding, and a decoding that reads a value back from the start of a
/// byte string and reports how many bytes it took. Both are stated over the value's view.
pub trait Data: View + Sized {
    /// The bytes that encode a value with view `v`.
    spec fn encoding_of(v: Self::V) -> Seq<u8>;

    /// What decoding reads from the start of `bytes`: a view and the number of bytes consumed.
    spec fn decoding_of(bytes: Seq<u8>) -> Option<(Self::V, nat)>;

    fn encode(&self) -> (res: Vec<u8>)
        ensures
            res@ == Self::encoding_of(self@),
    ;

    fn decode(bytes: &[u8]) -> (res: Option<(Self, usize)>)
        ensures
            match res {
                Some((x, n)) => Self::decoding_of(bytes@) == Some((x@, n as nat)),
                None => Self::decoding_of(bytes@) is None,
            },
    ;

    /// The views that values of the type can have and that survive an encoding round trip.
    spec fn valid_view(v: Self::V) -> bool;

    /// Decoding consumes no more than the input holds.
    proof fn lemma_decoding_within(bytes: Seq<u8>)
        ensures
            Self::decoding_of(bytes) matches Some((_, n)) ==> n <= bytes.len(),
    ;

    /// Decoding the encoding of a value, followed by anything, gives the value back and
    /// consumes exactly its encoding.
    proof fn lemma_roundtrip(v: Self::V, rest: Seq<u8>)
        requires
            Self::valid_view(v),
        ensures
            Self::decoding_of(Self::encoding_of(v) + rest) == Some((v, Self::encoding_of(v).len())),
    ;
}

impl Data for u32 {
    open spec fn encoding_of(v: u32) -> Seq<u8> {
        le_u32(v)
    }

    open spec fn valid_view(v: u32) -> bool {
        true
    }

    open spec fn decoding_of(bytes: Seq<u8>) -> Option<(u32, nat)> {
        if bytes.len() < 4 {
            None
        } else {
            Some((choose|v: u32| starts_with(bytes, le_u32(v)), 4))
        }
    }

    fn encode(&self) -> (res: Vec<u8>) {
        encode_u32(*self)
    }

    fn decode(bytes: &[u8]) -> (res: Option<(u32, usize)>) {
        match decode_u32(bytes) {
            Some(v) => {
                proof {
                    let w = choose|w: u32| starts_with(bytes@, le_u32(w));
                    assert(le_u32(v) =~= bytes@.subrange(0, 4));
                    assert(le_u32(w) =~= bytes@.subrange(0, 4));
                    lemma_le_u32_injective(v, w);
                }
                Some((v, 4))
            },
            None => None,
        }
    }

    proof fn lemma_decoding_within(bytes: Seq<u8>) {
    }

    proof fn lemma_roundtrip(v: u32, rest: Seq<u8>) {
        let bytes = le_u32(v) + rest;
        lemma_starts_with_concat(le_u32(v), rest);
        let w = choose|w: u32| starts_with(bytes, le_u32(w));
        assert(le_u32(v) =~= bytes.subrange(0, 4));
        assert(le_u32(w) =~= bytes.subrange(0, 4));
        lemma_le_u32_injective(v, w);
    }
}

impl Data for BlockHash {
    open spec fn encoding_of(v: [u8; 32]) -> Seq<u8> {
        v@
    }

    open spec fn valid_view(v: [u8; 32]) -> bool {
        true
    }

    open spec fn decoding_of(bytes: Seq<u8>) -> Option<([u8; 32], nat)> {
        if bytes.len() < 32 {
            None
        } else {
            Some((choose|v: [u8; 32]| v@ == bytes.subrange(0, 32), 32))
        }
    }

    fn encode(&self) -> (res: Vec<u8>) {
        encode_bytes32(&self.0)
    }

    fn decode(bytes: &[u8]) -> (res: Option<(BlockHash, usize)>) {
        match decode_bytes32(bytes) {
            Some(v) => {
                proof {
                    lemma_bytes32_unique(v, bytes@.subrange(0, 32));
                }
                Some((BlockHash(v), 32))
            },
            None => None,
        }
    }

    proof fn lemma_decoding_within(bytes: Seq<u8>) {
    }

    proof fn lemma_roundtrip(v: [u8; 32], rest: Seq<u8>) {
        let bytes = v@ + rest;
        lemma_starts_with_concat(v@, rest);
        lemma_bytes32_unique(v, bytes.subrange(0, 32));
    }
}

/// A 32-byte array is determined by its bytes.
pub proof fn lemma_bytes32_unique(v: [u8; 32], s: Seq<u8>)
    requires
        v@ == s,
    ensures
        (choose|w: [u8; 32]| w@ == s) == v,
{
    let w = choose|w: [u8; 32]| w@ == s;
    assert(w@ == s);
    assert forall|i: int| 0 <= i < 32 implies w[i] == v[i] by {
        assert(w@[i] == s[i]);
        assert(v@[i] == s[i]);
    }
    assert(w =~= v);
}

} // verus!
