//! Addressing information of nodes on the validator network, signed by their authority.
use vstd::prelude::*;

use crate::crypto::{AuthorityId, Signature};

verus! {

/// The identity of a peer on the validator network: its authority's public key.
#[derive(Clone, Copy, Debug, PartialEq, Eq, Hash)]
pub struct AuthorityIdWrapper(pub AuthorityId);

impl AuthorityIdWrapper {
    pub fn new(value: AuthorityId) -> (res: AuthorityIdWrapper)
        ensures
            res.0 == value,
    {
        AuthorityIdWrapper(value)
    }
}

/// What can go wrong when handling addressing information.
#[derive(Clone, Copy, Debug, PartialEq, Eq, Structural, Hash)]
pub enum AddressingInformationError {
    /// Construction of an addressing information object requires at least one address.
    NoAddress,
}

/// Where a peer can be reached: at least one address.
#[derive(Clone, Debug)]
pub struct TcpAddressingInformation {
    peer_id: AuthorityId,
    primary_address: String,
    other_addresses: Vec<String>,
}

impl TcpAddressingInformation {
    /// All the addresses, the primary one first.
    pub closed spec fn addresses(&self) -> Seq<String> {
        seq![self.primary_address] + self.other_addresses@
    }

    pub closed spec fn spec_peer_id(&self) -> AuthorityId {
        self.peer_id
    }

    /// The addressing information of `peer_id` at `addresses`, the first of them primary;
    /// there must be at least one.
    pub fn new(addresses: Vec<String>, peer_id: AuthorityId) -> (res: Result<
        TcpAddressingInformation,
        AddressingInformationError,
    >)
        ensures
            match res {
                Ok(info) => addresses@.len() > 0 && info.addresses() == addresses@
                    && info.spec_peer_id() == peer_id,
                Err(e) => addresses@.len() == 0 && e == AddressingInformationError::NoAddress,
            },
    {
        let mut addresses = addresses;
        if addresses.len() == 0 {
            return Err(AddressingInformationError::NoAddress);
        }
        let ghost all = addresses@;
        let primary_address = addresses.remove(0);
        proof {
            assert(all =~= seq![primary_address] + addresses@);
        }
        Ok(TcpAddressingInformation { primary_address, other_addresses: addresses, peer_id })
    }

    /// The peer the information is about.
    pub fn peer_id(&self) -> (res: AuthorityId)
        ensures
            res == self.spec_peer_id(),
    {
        self.peer_id
    }

    /// The addresses, the primary one first.
    pub fn all_addresses(&self) -> (res: Vec<String>)
        ensures
            res@ == self.addresses(),
    {
        let mut res: Vec<String> = Vec::new();
        res.push(self.primary_address.clone());
        let mut i: usize = 0;
        while i < self.other_addresses.len()
            invariant
                i <= self.other_addresses.len(),
                res@ == seq![self.primary_address] + self.other_addresses@.subrange(0, i as int),
            decreases self.other_addresses.len() - i,
        {
            res.push(self.other_addresses[i].clone());
            proof {
                assert(self.other_addresses@.subrange(0, i + 1) =~= self.other_addresses@.subrange(
                    0,
                    i as int,
                ).push(self.other_addresses@[i as int]));
            }
            i = i + 1;
        }
        proof {
            assert(self.other_addresses@.subrange(0, self.other_addresses.len() as int)
                =~= self.other_addresses@);
        }
        res
    }
}

/// A representation of TCP addressing information with an associated peer ID, self-signed.
#[derive(Clone, Debug)]
pub struct SignedTcpAddressingInformation {
    pub addressing_information: TcpAddressingInformation,
    pub signature: Signature,
}

impl SignedTcpAddressingInformation {
    /// The identity of the peer that signed the information.
    pub fn peer_id(&self) -> (res: AuthorityIdWrapper)
        ensures
            res.0 == self.addressing_information.spec_peer_id(),
    {
        AuthorityIdWrapper(self.addressing_information.peer_id())
    }

    /// The addressing information of `peer_id` at `addresses`, with `signature` over its
    /// encoding; there must be at least one address.
    pub fn new(addresses: Vec<String>, peer_id: AuthorityId, signature: Signature) -> (res: Result<
        SignedTcpAddressingInformation,
        AddressingInformationError,
    >)
        ensures
            match res {
                Ok(signed) => addresses@.len() > 0 && signed.addressing_information.addresses()
                    == addresses@ && signed.addressing_information.spec_peer_id() == peer_id
                    && signed.signature == signature,
                Err(e) => addresses@.len() == 0 && e == AddressingInformationError::NoAddress,
            },
    {
        let addressing_information = TcpAddressingInformation::new(addresses, peer_id)?;
        Ok(SignedTcpAddressingInformation { addressing_information, signature })
    }
}

} // verus!
