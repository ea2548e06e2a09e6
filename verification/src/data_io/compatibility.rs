//! Versioned encoding of the ordered data, so that data of unknown (future) versions can be
//! carried along undecoded.
use vstd::prelude::*;

use crate::compatibility::{concat_bytes, skip_bytes, Version};
use crate::data_io::AlephData;
use crate::scale::{decode_u16, encode_u16, le_u16, lemma_le_u16_injective, lemma_starts_with_concat, starts_with, Data};

verus! {

/// Ordered data under a version: version 1 is decoded, other versions are kept as bytes.
#[derive(Debug)]
pub enum VersionedAlephData {
    Other(u16, Vec<u8>),
    V1(AlephData),
}

impl View for VersionedAlephData {
    /// `Ok` of the data for version 1, `Err` of the version and the raw payload otherwise.
    type V = Result<Option<(Seq<[u8; 32]>, u32)>, (u16, Seq<u8>)>;

    open spec fn view(&self) -> Result<Option<(Seq<[u8; 32]>, u32)>, (u16, Seq<u8>)> {
        match self {
            VersionedAlephData::Other(v, payload) => Err((*v, payload@)),
            VersionedAlephData::V1(d) => Ok(d@),
        }
    }
}

/// The framing: the version, the length of the payload in two bytes (cut down to 16 bits, so
/// longer payloads are framed wrongly), and the payload.
pub open spec fn with_version_u16(version: u16, payload: Seq<u8>) -> Seq<u8> {
    le_u16(version) + le_u16(payload.len() as u16) + payload
}

/// Frames `payload` under `version`.
pub fn encode_with_version(version: u16, payload: Vec<u8>) -> (res: Vec<u8>)
    ensures
        res@ == with_version_u16(version, payload@),
{
    let result = encode_u16(version);
    let num_bytes: u16 = #[verifier::truncate] (payload.len() as u16);
    let result = concat_bytes(result, encode_u16(num_bytes));
    concat_bytes(result, payload)
}

/// The `u16` whose little-endian bytes start `bytes`.
pub open spec fn u16_at(bytes: Seq<u8>) -> u16 {
    choose|v: u16| starts_with(bytes, le_u16(v))
}

pub open spec fn versioned_encoding(v: Result<Option<(Seq<[u8; 32]>, u32)>, (u16, Seq<u8>)>) -> Seq<u8> {
    match v {
        Ok(d) => with_version_u16(1, AlephData::encoding_of(d)),
        Err((version, payload)) => with_version_u16(version, payload),
    }
}

pub open spec fn versioned_decoding(bytes: Seq<u8>) -> Option<
    (Result<Option<(Seq<[u8; 32]>, u32)>, (u16, Seq<u8>)>, nat),
> {
    if bytes.len() < 4 {
        None
    } else {
        let version = u16_at(bytes);
        let num_bytes = u16_at(bytes.subrange(2, bytes.len() as int));
        let rest = bytes.subrange(4, bytes.len() as int);
        if version == 1 {
            match AlephData::decoding_of(rest) {
                Some((d, m)) => Some((Ok(d), 4 + m)),
                None => None,
            }
        } else if num_bytes <= rest.len() {
            Some((Err((version, rest.subrange(0, num_bytes as int))), (4 + num_bytes) as nat))
        } else {
            None
        }
    }
}

proof fn lemma_u16_at(bytes: Seq<u8>, v: u16)
    requires
        starts_with(bytes, le_u16(v)),
    ensures
        u16_at(bytes) == v,
{
    let w = u16_at(bytes);
    assert(le_u16(v) =~= bytes.subrange(0, 2));
    assert(le_u16(w) =~= bytes.subrange(0, 2));
    lemma_le_u16_injective(v, w);
}

impl VersionedAlephData {
    /// Number of bytes of the encoding.
    pub fn size_hint(&self) -> (res: usize)
        requires
            match self@ {
                Err((_, payload)) => payload.len() <= usize::MAX - 4,
                Ok(Some(p)) => 32 * p.0.len() + 13 <= usize::MAX,
                Ok(None) => true,
            },
        ensures
            res == versioned_encoding(self@).len(),
    {
        match self {
            VersionedAlephData::Other(_, payload) => 4 + payload.len(),
            VersionedAlephData::V1(data) => {
                proof {
                    if let Some(p) = data@ {
                        crate::data_io::lemma_flat_hashes_len(p.0);
                    }
                }
                4 + data.size_hint()
            },
        }
    }

    pub fn encode(&self) -> (res: Vec<u8>)
        ensures
            res@ == versioned_encoding(self@),
    {
        match self {
            VersionedAlephData::Other(version, payload) => encode_with_version(
                *version,
                vstd::slice::slice_to_vec(payload.as_slice()),
            ),
            VersionedAlephData::V1(data) => encode_with_version(1, data.encode()),
        }
    }

    pub fn decode(bytes: &[u8]) -> (res: Option<(VersionedAlephData, usize)>)
        ensures
            match res {
                Some((x, n)) => versioned_decoding(bytes@) == Some((x@, n as nat)),
                None => versioned_decoding(bytes@) is None,
            },
    {
        let total = bytes.len();
        let version = match decode_u16(bytes) {
            Some(v) => v,
            None => return None,
        };
        let after_version = skip_bytes(bytes, 2);
        let num_bytes = match decode_u16(after_version) {
            Some(v) => v,
            None => return None,
        };
        proof {
            lemma_u16_at(bytes@, version);
            assert(after_version@ =~= bytes@.subrange(2, bytes@.len() as int));
            lemma_u16_at(after_version@, num_bytes);
        }
        let rest = skip_bytes(bytes, 4);
        if version == 1 {
            match AlephData::decode(rest) {
                Some((data, m)) => {
                    proof {
                        AlephData::lemma_decoding_within(rest@);
                    }
                    Some((VersionedAlephData::V1(data), 4 + m))
                },
                None => None,
            }
        } else if (num_bytes as usize) <= rest.len() {
            let payload = vstd::slice::slice_to_vec(
                vstd::slice::slice_subrange(rest, 0, num_bytes as usize),
            );
            Some((VersionedAlephData::Other(version, payload), 4 + num_bytes as usize))
        } else {
            None
        }
    }
}

/// Decoding an encoding gives the data back, for version 1 and for other versions whose
/// payload fits in the 16-bit length.
pub proof fn lemma_versioned_roundtrip(
    v: Result<Option<(Seq<[u8; 32]>, u32)>, (u16, Seq<u8>)>,
    rest: Seq<u8>,
)
    requires
        match v {
            Ok(d) => AlephData::valid_view(d) && AlephData::encoding_of(d).len() <= u16::MAX,
            Err((version, payload)) => version != 1 && payload.len() <= u16::MAX,
        },
    ensures
        versioned_decoding(versioned_encoding(v) + rest) == Some((v, versioned_encoding(v).len())),
{
    let (version, payload) = match v {
        Ok(d) => (1u16, AlephData::encoding_of(d)),
        Err((version, payload)) => (version, payload),
    };
    let bytes = versioned_encoding(v) + rest;
    assert(bytes =~= le_u16(version) + (le_u16(payload.len() as u16) + payload + rest));
    lemma_starts_with_concat(le_u16(version), le_u16(payload.len() as u16) + payload + rest);
    lemma_u16_at(bytes, version);
    let after = bytes.subrange(2, bytes.len() as int);
    assert(after =~= le_u16(payload.len() as u16) + (payload + rest));
    lemma_starts_with_concat(le_u16(payload.len() as u16), payload + rest);
    lemma_u16_at(after, payload.len() as u16);
    let body = bytes.subrange(4, bytes.len() as int);
    assert(body =~= payload + rest);
    match v {
        Ok(d) => {
            AlephData::lemma_roundtrip(d, rest);
        },
        Err((version, payload)) => {
            assert(body.subrange(0, payload.len() as int) =~= payload);
        },
    }
}

} // verus!
