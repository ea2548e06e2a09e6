//! Versioned framing of network data, so that nodes running different protocol versions can
//! tell the versions apart.
use vstd::prelude::*;

use crate::primitives::SessionId;
use crate::scale::{
    decode_u16, encode_u16, le_u16, le_u32, lemma_le_u16_injective, lemma_starts_with_concat,
    starts_with, Data,
};

verus! {

/// A protocol version.
#[derive(Clone, Copy, Debug, PartialEq, Eq)]
pub struct Version(pub u16);

impl View for Version {
    type V = u16;

    open spec fn view(&self) -> u16 {
        self.0
    }
}

/// A type that is sent over the network under a fixed protocol version.
pub trait Versioned {
    const VERSION: Version;
}

impl Data for Version {
    open spec fn encoding_of(v: u16) -> Seq<u8> {
        le_u16(v)
    }

    open spec fn valid_view(v: u16) -> bool {
        true
    }

    open spec fn decoding_of(bytes: Seq<u8>) -> Option<(u16, nat)> {
        if bytes.len() < 2 {
            None
        } else {
            Some((choose|v: u16| starts_with(bytes, le_u16(v)), 2))
        }
    }

    fn encode(&self) -> (res: Vec<u8>) {
        encode_u16(self.0)
    }

    fn decode(bytes: &[u8]) -> (res: Option<(Version, usize)>) {
        match decode_u16(bytes) {
            Some(v) => {
                proof {
                    let w = choose|w: u16| starts_with(bytes@, le_u16(w));
                    assert(le_u16(v) =~= bytes@.subrange(0, 2));
                    assert(le_u16(w) =~= bytes@.subrange(0, 2));
                    lemma_le_u16_injective(v, w);
                }
                Some((Version(v), 2))
            },
            None => None,
        }
    }

    proof fn lemma_decoding_within(bytes: Seq<u8>) {
    }

    proof fn lemma_roundtrip(v: u16, rest: Seq<u8>) {
        let bytes = le_u16(v) + rest;
        lemma_starts_with_concat(le_u16(v), rest);
        let w = choose|w: u16| starts_with(bytes, le_u16(w));
        assert(le_u16(v) =~= bytes.subrange(0, 2));
        assert(le_u16(w) =~= bytes.subrange(0, 2));
        lemma_le_u16_injective(v, w);
    }
}

impl Data for SessionId {
    open spec fn encoding_of(v: u32) -> Seq<u8> {
        <u32 as Data>::encoding_of(v)
    }

    open spec fn valid_view(v: u32) -> bool {
        true
    }

    open spec fn decoding_of(bytes: Seq<u8>) -> Option<(u32, nat)> {
        <u32 as Data>::decoding_of(bytes)
    }

    fn encode(&self) -> (res: Vec<u8>) {
        self.0.encode()
    }

    fn decode(bytes: &[u8]) -> (res: Option<(SessionId, usize)>) {
        match <u32 as Data>::decode(bytes) {
            Some((v, n)) => Some((SessionId(v), n)),
            None => None,
        }
    }

    proof fn lemma_decoding_within(bytes: Seq<u8>) {
    }

    proof fn lemma_roundtrip(v: u32, rest: Seq<u8>) {
        <u32 as Data>::lemma_roundtrip(v, rest);
    }
}

/// Appends `b` to `a`.
pub fn concat_bytes(a: Vec<u8>, b: Vec<u8>) -> (res: Vec<u8>)
    ensures
        res@ == a@ + b@,
{
    let mut a = a;
    let mut b = b;
    a.append(&mut b);
    a
}

/// The bytes of `bytes` from position `n` on.
pub fn skip_bytes(bytes: &[u8], n: usize) -> (res: &[u8])
    requires
        n <= bytes@.len(),
    ensures
        res@ == bytes@.subrange(n as int, bytes@.len() as int),
{
    vstd::slice::slice_subrange(bytes, n, bytes.len())
}

/// Wrapper for data sent over the network together with the session it belongs to. The data
/// comes first in the encoding, the session id second.
#[derive(Clone)]
pub struct NetworkDataInSession<D: Data> {
    pub data: D,
    pub session_id: SessionId,
}

impl<D: Data> View for NetworkDataInSession<D> {
    type V = (D::V, u32);

    open spec fn view(&self) -> (D::V, u32) {
        (self.data@, self.session_id@)
    }
}

impl<D: Data> Data for NetworkDataInSession<D> {
    open spec fn encoding_of(v: (D::V, u32)) -> Seq<u8> {
        D::encoding_of(v.0) + le_u32(v.1)
    }

    open spec fn valid_view(v: (D::V, u32)) -> bool {
        D::valid_view(v.0)
    }

    open spec fn decoding_of(bytes: Seq<u8>) -> Option<((D::V, u32), nat)> {
        match D::decoding_of(bytes) {
            Some((d, n)) => match <u32 as Data>::decoding_of(bytes.subrange(n as int, bytes.len() as int)) {
                Some((s, m)) => Some(((d, s), n + m)),
                None => None,
            },
            None => None,
        }
    }

    fn encode(&self) -> (res: Vec<u8>) {
        concat_bytes(self.data.encode(), self.session_id.encode())
    }

    fn decode(bytes: &[u8]) -> (res: Option<(NetworkDataInSession<D>, usize)>) {
        let (data, n) = match D::decode(bytes) {
            Some(r) => r,
            None => return None,
        };
        proof {
            D::lemma_decoding_within(bytes@);
        }
        let total = bytes.len();
        let rest = skip_bytes(bytes, n);
        match SessionId::decode(rest) {
            Some((session_id, m)) => {
                proof {
                    <u32 as Data>::lemma_decoding_within(rest@);
                    assert(m <= rest@.len());
                    assert(n + m <= total);
                }
                Some((NetworkDataInSession { data, session_id }, n + m))
            },
            None => None,
        }
    }

    proof fn lemma_decoding_within(bytes: Seq<u8>) {
        D::lemma_decoding_within(bytes);
        if let Some((d, n)) = D::decoding_of(bytes) {
            <u32 as Data>::lemma_decoding_within(bytes.subrange(n as int, bytes.len() as int));
        }
    }

    proof fn lemma_roundtrip(v: (D::V, u32), rest: Seq<u8>) {
        let enc = D::encoding_of(v.0) + le_u32(v.1);
        let bytes = enc + rest;
        assert(bytes =~= D::encoding_of(v.0) + (le_u32(v.1) + rest));
        D::lemma_roundtrip(v.0, le_u32(v.1) + rest);
        let n = D::encoding_of(v.0).len();
        lemma_starts_with_concat(D::encoding_of(v.0), le_u32(v.1) + rest);
        <u32 as Data>::lemma_roundtrip(v.1, rest);
    }
}

/// A message of one of two versioned types. Its encoding is the version of the type it holds
/// followed by the encoding of the value. Decoding reads the version first and, when both types
/// declare the same version, tries the left one only.
#[derive(Clone)]
pub enum VersionedEitherMessage<L, R> {
    Left(L),
    Right(R),
}

impl<L: View, R: View> View for VersionedEitherMessage<L, R> {
    type V = VersionedEitherMessage<L::V, R::V>;

    open spec fn view(&self) -> VersionedEitherMessage<L::V, R::V> {
        match self {
            VersionedEitherMessage::Left(l) => VersionedEitherMessage::Left(l@),
            VersionedEitherMessage::Right(r) => VersionedEitherMessage::Right(r@),
        }
    }
}

/// The bytes of a versioned either-message.
pub open spec fn either_encoding<L: Versioned + Data, R: Versioned + Data>(
    v: VersionedEitherMessage<L::V, R::V>,
) -> Seq<u8> {
    match v {
        VersionedEitherMessage::Left(l) => le_u16(L::VERSION.0) + L::encoding_of(l),
        VersionedEitherMessage::Right(r) => le_u16(R::VERSION.0) + R::encoding_of(r),
    }
}

/// What decoding a versioned either-message reads from the start of `bytes`.
pub open spec fn either_decoding<L: Versioned + Data, R: Versioned + Data>(bytes: Seq<u8>) -> Option<
    (VersionedEitherMessage<L::V, R::V>, nat),
> {
    match Version::decoding_of(bytes) {
        Some((version, n)) => {
            let rest = bytes.subrange(n as int, bytes.len() as int);
            if version == L::VERSION.0 {
                match L::decoding_of(rest) {
                    Some((l, m)) => Some((VersionedEitherMessage::Left(l), n + m)),
                    None => None,
                }
            } else if version == R::VERSION.0 {
                match R::decoding_of(rest) {
                    Some((r, m)) => Some((VersionedEitherMessage::Right(r), n + m)),
                    None => None,
                }
            } else {
                None
            }
        },
        None => None,
    }
}

impl<L: Versioned + Data, R: Versioned + Data> VersionedEitherMessage<L, R> {
    pub fn encode(&self) -> (res: Vec<u8>)
        ensures
            res@ == either_encoding::<L, R>(self@),
    {
        match self {
            VersionedEitherMessage::Left(left) => concat_bytes(L::VERSION.encode(), left.encode()),
            VersionedEitherMessage::Right(right) => concat_bytes(
                R::VERSION.encode(),
                right.encode(),
            ),
        }
    }

    pub fn decode(bytes: &[u8]) -> (res: Option<(VersionedEitherMessage<L, R>, usize)>)
        ensures
            match res {
                Some((x, n)) => either_decoding::<L, R>(bytes@) == Some((x@, n as nat)),
                None => either_decoding::<L, R>(bytes@) is None,
            },
    {
        let total = bytes.len();
        let (version, n) = match Version::decode(bytes) {
            Some(r) => r,
            None => return None,
        };
        let rest = skip_bytes(bytes, n);
        if version.0 == L::VERSION.0 {
            match L::decode(rest) {
                Some((left, m)) => {
                    proof {
                        L::lemma_decoding_within(rest@);
                    }
                    Some((VersionedEitherMessage::Left(left), n + m))
                },
                None => None,
            }
        } else if version.0 == R::VERSION.0 {
            match R::decode(rest) {
                Some((right, m)) => {
                    proof {
                        R::lemma_decoding_within(rest@);
                    }
                    Some((VersionedEitherMessage::Right(right), n + m))
                },
                None => None,
            }
        } else {
            None
        }
    }
}

/// When the two types declare the same version, the first one has priority: decoding never
/// gives a message of the second type.
pub proof fn lemma_equal_versions_decode_left<L: Versioned + Data, R: Versioned + Data>(bytes: Seq<u8>)
    requires
        L::VERSION.0 == R::VERSION.0,
    ensures
        !(either_decoding::<L, R>(bytes) matches Some((VersionedEitherMessage::Right(_), _))),
{
}

/// Decoding an encoded either-message, followed by anything, gives the message back, provided
/// the two types declare different versions.
pub proof fn lemma_either_roundtrip<L: Versioned + Data, R: Versioned + Data>(
    v: VersionedEitherMessage<L::V, R::V>,
    rest: Seq<u8>,
)
    requires
        L::VERSION.0 != R::VERSION.0,
        match v {
            VersionedEitherMessage::Left(l) => L::valid_view(l),
            VersionedEitherMessage::Right(r) => R::valid_view(r),
        },
    ensures
        either_decoding::<L, R>(either_encoding::<L, R>(v) + rest) == Some(
            (v, either_encoding::<L, R>(v).len()),
        ),
{
    match v {
        VersionedEitherMessage::Left(l) => {
            let payload = L::encoding_of(l) + rest;
            assert(either_encoding::<L, R>(v) + rest =~= le_u16(L::VERSION.0) + payload);
            Version::lemma_roundtrip(L::VERSION.0, payload);
            lemma_starts_with_concat(le_u16(L::VERSION.0), payload);
            L::lemma_roundtrip(l, rest);
        },
        VersionedEitherMessage::Right(r) => {
            let payload = R::encoding_of(r) + rest;
            assert(either_encoding::<L, R>(v) + rest =~= le_u16(R::VERSION.0) + payload);
            Version::lemma_roundtrip(R::VERSION.0, payload);
            lemma_starts_with_concat(le_u16(R::VERSION.0), payload);
            R::lemma_roundtrip(r, rest);
        },
    }
}

/// What can go wrong when taking a value of the expected version out of an either-message.
#[derive(Debug, Clone)]
pub enum VersionedTryFromError {
    ExpectedNewGotOld,
    ExpectedOldGotNew,
}

/// Takes the old-version (left) value out of the message.
pub fn try_into_left<L, R>(value: VersionedEitherMessage<L, R>) -> (res: Result<
    L,
    VersionedTryFromError,
>)
    ensures
        match value {
            VersionedEitherMessage::Left(l) => res == Ok::<L, VersionedTryFromError>(l),
            VersionedEitherMessage::Right(_) => res matches Err(VersionedTryFromError::ExpectedOldGotNew),
        },
{
    match value {
        VersionedEitherMessage::Left(data) => Ok(data),
        VersionedEitherMessage::Right(_) => Err(VersionedTryFromError::ExpectedOldGotNew),
    }
}

/// Takes the new-version (right) value out of the message.
pub fn try_into_right<L, R>(value: VersionedEitherMessage<L, R>) -> (res: Result<
    R,
    VersionedTryFromError,
>)
    ensures
        match value {
            VersionedEitherMessage::Left(_) => res matches Err(VersionedTryFromError::ExpectedNewGotOld),
            VersionedEitherMessage::Right(r) => res == Ok::<R, VersionedTryFromError>(r),
        },
{
    match value {
        VersionedEitherMessage::Left(_) => Err(VersionedTryFromError::ExpectedNewGotOld),
        VersionedEitherMessage::Right(data) => Ok(data),
    }
}

} // verus!
