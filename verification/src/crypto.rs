//! Keys and signatures of authorities, as plain bytes.
use vstd::prelude::*;

use crate::primitives::NodeIndex;

verus! {

/// The public key identifying an authority.
#[derive(Clone, Copy, Debug, PartialEq, Eq, Hash)]
pub struct AuthorityId(pub [u8; 32]);

/// A signature of an authority.
#[derive(Clone, Copy, Debug, PartialEq, Eq, Hash)]
pub struct AuthoritySignature(pub [u8; 64]);

/// A signature used by the network layer.
#[derive(Clone, Copy, Debug, PartialEq, Eq, Hash)]
pub struct Signature(pub AuthoritySignature);

/// Old format of signatures, needed for backwards compatibility.
#[derive(Clone, Copy, Debug, PartialEq, Eq)]
pub struct SignatureV1 {
    pub _id: NodeIndex,
    pub sgn: AuthoritySignature,
}

impl SignatureV1 {
    /// The signature in the current format: the index of the signer is dropped.
    pub fn into_signature(self) -> (res: Signature)
        ensures
            res == Signature(self.sgn),
    {
        Signature(self.sgn)
    }
}

impl From<SignatureV1> for Signature {
    fn from(sig_v1: SignatureV1) -> (res: Signature) {
        Signature(sig_v1.sgn)
    }
}

impl vstd::std_specs::convert::FromSpecImpl<SignatureV1> for Signature {
    open spec fn obeys_from_spec() -> bool {
        true
    }

    open spec fn from_spec(sig_v1: SignatureV1) -> Signature {
        Signature(sig_v1.sgn)
    }
}

} // verus!
