//! Versioned encoding of authentication messages, so that messages of unknown (future)
//! versions can be carried along undecoded.
use vstd::prelude::*;
use vstd::string::StringExecFns;

use crate::decimal::{decimal, decimal_string};

use crate::compatibility::{concat_bytes, skip_bytes};
use crate::scale::{
    decode_u16, decode_u32, encode_u16, encode_u32, le_u16, le_u32, lemma_le_u16_injective,
    lemma_le_u32_injective, lemma_starts_with_concat, starts_with, Data,
};

verus! {

/// An authentication message under a version: version 1 holds a discovery message of type
/// `D`, other versions (most likely from the future) are kept as bytes.
#[derive(Clone, Debug)]
pub enum VersionedAuthentication<D> {
    Other(u16, Vec<u8>),
    V1(D),
}

impl<D: View> View for VersionedAuthentication<D> {
    /// `Ok` of the message for version 1, `Err` of the version and the raw payload otherwise.
    type V = Result<D::V, (u16, Seq<u8>)>;

    open spec fn view(&self) -> Result<D::V, (u16, Seq<u8>)> {
        match self {
            VersionedAuthentication::Other(v, payload) => Err((*v, payload@)),
            VersionedAuthentication::V1(d) => Ok(d@),
        }
    }
}

/// What can go wrong when turning a versioned message into network data.
#[derive(Clone, Copy, Debug, PartialEq, Eq, Structural)]
pub enum Error {
    UnknownVersion(u16),
}

impl Error {
    /// What the error says.
    pub fn message(&self) -> (res: String)
        ensures
            match self {
                Error::UnknownVersion(v) => res@ == "authentication data encoded with unknown version "@
                    + decimal(*v as nat),
            },
    {
        match self {
            Error::UnknownVersion(v) => {
                let digits = decimal_string(*v as u32);
                String::from_str("authentication data encoded with unknown version ").concat(
                    digits.as_str(),
                )
            },
        }
    }
}

/// The framing: the version, the length of the payload in four bytes (cut down to 32 bits,
/// so longer payloads are framed wrongly), and the payload.
pub open spec fn with_version(version: u16, payload: Seq<u8>) -> Seq<u8> {
    le_u16(version) + le_u32(payload.len() as u32) + payload
}

/// Frames `payload` under `version`.
pub fn encode_with_version(version: u16, payload: Vec<u8>) -> (res: Vec<u8>)
    ensures
        res@ == with_version(version, payload@),
{
    let result = encode_u16(version);
    let num_bytes: u32 = #[verifier::truncate] (payload.len() as u32);
    let result = concat_bytes(result, encode_u32(num_bytes));
    concat_bytes(result, payload)
}

/// The `u16` whose little-endian bytes start `bytes`.
pub open spec fn u16_at(bytes: Seq<u8>) -> u16 {
    choose|v: u16| starts_with(bytes, le_u16(v))
}

/// The `u32` whose little-endian bytes start `bytes`.
pub open spec fn u32_at(bytes: Seq<u8>) -> u32 {
    choose|v: u32| starts_with(bytes, le_u32(v))
}

pub open spec fn authentication_encoding<D: Data>(v: Result<D::V, (u16, Seq<u8>)>) -> Seq<u8> {
    match v {
        Ok(d) => with_version(1, D::encoding_of(d)),
        Err((version, payload)) => with_version(version, payload),
    }
}

/// Decoding reads the version and the byte count; version 1 is decoded as a message
/// (which need not take the counted bytes), other versions take the counted bytes raw.
pub open spec fn authentication_decoding<D: Data>(bytes: Seq<u8>) -> Option<
    (Result<D::V, (u16, Seq<u8>)>, nat),
> {
    if bytes.len() < 6 {
        None
    } else {
        let version = u16_at(bytes);
        let num_bytes = u32_at(bytes.subrange(2, bytes.len() as int));
        let rest = bytes.subrange(6, bytes.len() as int);
        if version == 1 {
            match D::decoding_of(rest) {
                Some((d, m)) => Some((Ok(d), 6 + m)),
                None => None,
            }
        } else if num_bytes <= rest.len() {
            Some((Err((version, rest.subrange(0, num_bytes as int))), (6 + num_bytes) as nat))
        } else {
            None
        }
    }
}

proof fn lemma_u16_at(bytes: Seq<u8>, v: u16)
    requires
        starts_with(bytes, le_u16(v)),
    ensures
        u16_at(bytes) == v,
{
    let w = u16_at(bytes);
    assert(le_u16(v) =~= bytes.subrange(0, 2));
    assert(le_u16(w) =~= bytes.subrange(0, 2));
    lemma_le_u16_injective(v, w);
}

proof fn lemma_u32_at(bytes: Seq<u8>, v: u32)
    requires
        starts_with(bytes, le_u32(v)),
    ensures
        u32_at(bytes) == v,
{
    let w = u32_at(bytes);
    assert(le_u32(v) =~= bytes.subrange(0, 4));
    assert(le_u32(w) =~= bytes.subrange(0, 4));
    lemma_le_u32_injective(v, w);
}

impl<D: Data> VersionedAuthentication<D> {
    /// A message of the current version.
    pub fn from_message(message: D) -> (res: VersionedAuthentication<D>)
        ensures
            res@ == Ok::<D::V, (u16, Seq<u8>)>(message@),
    {
        VersionedAuthentication::V1(message)
    }

    /// The message, for version 1; the unknown version otherwise.
    pub fn try_into(self) -> (res: Result<D, Error>)
        ensures
            match self@ {
                Ok(d) => res matches Ok(m) && m@ == d,
                Err((version, _)) => res == Err::<D, Error>(Error::UnknownVersion(version)),
            },
    {
        match self {
            VersionedAuthentication::V1(message) => Ok(message),
            VersionedAuthentication::Other(v, _) => Err(Error::UnknownVersion(v)),
        }
    }

    pub fn encode(&self) -> (res: Vec<u8>)
        ensures
            res@ == authentication_encoding::<D>(self@),
    {
        match self {
            VersionedAuthentication::Other(version, payload) => encode_with_version(
                *version,
                vstd::slice::slice_to_vec(payload.as_slice()),
            ),
            VersionedAuthentication::V1(data) => encode_with_version(1, data.encode()),
        }
    }

    pub fn decode(bytes: &[u8]) -> (res: Option<(VersionedAuthentication<D>, usize)>)
        ensures
            match res {
                Some((x, n)) => authentication_decoding::<D>(bytes@) == Some((x@, n as nat)),
                None => authentication_decoding::<D>(bytes@) is None,
            },
    {
        if bytes.len() < 6 {
            return None;
        }
        let version = match decode_u16(bytes) {
            Some(v) => v,
            None => return None,
        };
        let after_version = skip_bytes(bytes, 2);
        let num_bytes = match decode_u32(after_version) {
            Some(v) => v,
            None => return None,
        };
        proof {
            lemma_u16_at(bytes@, version);
            assert(after_version@ =~= bytes@.subrange(2, bytes@.len() as int));
            lemma_u32_at(after_version@, num_bytes);
        }
        let rest = skip_bytes(bytes, 6);
        if version == 1 {
            match D::decode(rest) {
                Some((data, m)) => {
                    proof {
                        D::lemma_decoding_within(rest@);
                    }
                    Some((VersionedAuthentication::V1(data), 6 + m))
                },
                None => None,
            }
        } else if (num_bytes as usize) <= rest.len() {
            let payload = vstd::slice::slice_to_vec(
                vstd::slice::slice_subrange(rest, 0, num_bytes as usize),
            );
            Some((VersionedAuthentication::Other(version, payload), 6 + num_bytes as usize))
        } else {
            None
        }
    }
}

/// Decoding an encoding gives the message back, for version 1 and for other versions, as
/// long as the payload's length fits in the 32-bit byte count.
pub proof fn lemma_authentication_roundtrip<D: Data>(v: Result<D::V, (u16, Seq<u8>)>, rest: Seq<u8>)
    requires
        match v {
            Ok(d) => D::valid_view(d) && D::encoding_of(d).len() <= u32::MAX,
            Err((version, payload)) => version != 1 && payload.len() <= u32::MAX,
        },
    ensures
        authentication_decoding::<D>(authentication_encoding::<D>(v) + rest) == Some(
            (v, authentication_encoding::<D>(v).len()),
        ),
{
    let (version, payload) = match v {
        Ok(d) => (1u16, D::encoding_of(d)),
        Err((version, payload)) => (version, payload),
    };
    let bytes = authentication_encoding::<D>(v) + rest;
    assert(bytes =~= le_u16(version) + (le_u32(payload.len() as u32) + payload + rest));
    lemma_starts_with_concat(le_u16(version), le_u32(payload.len() as u32) + payload + rest);
    lemma_u16_at(bytes, version);
    let after = bytes.subrange(2, bytes.len() as int);
    assert(after =~= le_u32(payload.len() as u32) + (payload + rest));
    lemma_starts_with_concat(le_u32(payload.len() as u32), payload + rest);
    lemma_u32_at(after, payload.len() as u32);
    let body = bytes.subrange(6, bytes.len() as int);
    assert(body =~= payload + rest);
    match v {
        Ok(d) => {
            D::lemma_roundtrip(d, rest);
        },
        Err((version, payload)) => {
            assert(body.subrange(0, payload.len() as int) =~= payload);
        },
    }
}

} // verus!
