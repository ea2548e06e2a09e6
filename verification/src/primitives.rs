//! Basic chain types shared by the whole library.
use vstd::prelude::*;

verus! {

/// Number of a block in the chain.
pub type BlockNumber = u32;

/// A 32-byte block hash.
#[derive(Clone, Copy, Debug, PartialEq, Eq, Hash)]
pub struct BlockHash(pub [u8; 32]);

impl View for BlockHash {
    type V = [u8; 32];

    open spec fn view(&self) -> [u8; 32] {
        self.0
    }
}

/// Compares two hashes byte by byte.
pub fn hash_eq(a: &BlockHash, b: &BlockHash) -> (res: bool)
    ensures
        res == (a@ == b@),
{
    let mut i: usize = 0;
    while i < 32
        invariant
            0 <= i <= 32,
            forall|j: int| 0 <= j < i ==> a.0[j] == b.0[j],
        decreases 32 - i,
    {
        if a.0[i] != b.0[i] {
            return false;
        }
        i = i + 1;
    }
    proof {
        assert(a.0 =~= b.0);
    }
    true
}

/// Identifies a block by its hash and number.
#[derive(Clone, Copy, Debug, PartialEq, Eq, Hash)]
pub struct BlockId {
    pub hash: BlockHash,
    pub number: BlockNumber,
}

impl BlockId {
    pub fn new(hash: BlockHash, number: BlockNumber) -> (res: BlockId)
        ensures
            res.hash == hash,
            res.number == number,
    {
        BlockId { hash, number }
    }
}

/// Compares two block identifiers.
pub fn block_id_eq(a: &BlockId, b: &BlockId) -> (res: bool)
    ensures
        res == (a.hash@ == b.hash@ && a.number == b.number),
{
    a.number == b.number && hash_eq(&a.hash, &b.hash)
}

} // verus!

verus! {

/// Index of a session.
#[derive(Clone, Copy, Debug, PartialEq, Eq, Hash)]
pub struct SessionId(pub u32);

impl View for SessionId {
    type V = u32;

    open spec fn view(&self) -> u32 {
        self.0
    }
}

/// Index of a committee member.
#[derive(Clone, Copy, Debug, PartialEq, Eq, Hash)]
pub struct NodeIndex(pub usize);

/// The account of a validator.
#[derive(Clone, Copy, Debug, PartialEq, Eq, Hash)]
pub struct AccountId(pub [u8; 32]);

impl View for AccountId {
    type V = [u8; 32];

    open spec fn view(&self) -> [u8; 32] {
        self.0
    }
}

/// Size of a committee.
#[derive(Clone, Copy, Debug, PartialEq, Eq, Hash)]
pub struct NodeCount(pub usize);

} // verus!

verus! {

impl View for BlockId {
    type V = ([u8; 32], u32);

    open spec fn view(&self) -> ([u8; 32], u32) {
        (self.hash@, self.number)
    }
}

/// Length of a session, in blocks.
#[derive(Clone, Copy, Debug, PartialEq, Eq)]
pub struct SessionPeriod(pub u32);

/// The first and the last block of a session.
#[derive(Clone, Copy, Debug, PartialEq, Eq)]
pub struct SessionBoundaries {
    first_block: BlockNumber,
    last_block: BlockNumber,
}

impl SessionBoundaries {
    /// Boundaries of session `session_id` when every session has `period` blocks: the session
    /// covers blocks `session_id * period` to `(session_id + 1) * period - 1`.
    pub fn new(session_id: SessionId, period: SessionPeriod) -> (res: SessionBoundaries)
        requires
            period.0 > 0,
            (session_id.0 + 1) * period.0 <= u32::MAX + 1,
        ensures
            res.first() == session_id.0 * period.0,
            res.last() == (session_id.0 + 1) * period.0 - 1,
    {
        proof {
            assert(session_id.0 * period.0 + period.0 == (session_id.0 + 1) * period.0)
                by (nonlinear_arith);
            assert(0 <= session_id.0 * period.0) by (nonlinear_arith);
        }
        let first = session_id.0 * period.0;
        SessionBoundaries { first_block: first, last_block: first + (period.0 - 1) }
    }

    pub closed spec fn first(&self) -> BlockNumber {
        self.first_block
    }

    pub closed spec fn last(&self) -> BlockNumber {
        self.last_block
    }

    pub fn first_block(&self) -> (res: BlockNumber)
        ensures
            res == self.first(),
    {
        self.first_block
    }

    pub fn last_block(&self) -> (res: BlockNumber)
        ensures
            res == self.last(),
    {
        self.last_block
    }
}

} // verus!
