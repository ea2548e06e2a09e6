//! What a node proposes for ordering: the branch from just above the highest finalized block
//! towards its best block in the session, cut to at most `MAX_DATA_BRANCH_LEN` blocks.
use vstd::prelude::*;

use crate::data_io::chain_info::ChainInfoProvider;
use crate::data_io::proposal::{hashes_view, UnvalidatedAlephProposal, MAX_DATA_BRANCH_LEN};
use crate::data_io::AlephData;
use crate::primitives::{block_id_eq, hash_eq, BlockHash, BlockId, BlockNumber, SessionBoundaries};

verus! {

/// The default time between refreshes of the best chain, in milliseconds.
pub const DEFAULT_REFRESH_INTERVAL_MS: u64 = 100;

/// How often the chain tracker refreshes its view of the best chain.
#[derive(Clone, Copy, Debug, PartialEq, Eq, Structural)]
pub struct ChainTrackerConfig {
    pub refresh_interval_ms: u64,
}

impl Default for ChainTrackerConfig {
    fn default() -> (res: ChainTrackerConfig)
        ensures
            res.refresh_interval_ms == DEFAULT_REFRESH_INTERVAL_MS,
    {
        ChainTrackerConfig { refresh_interval_ms: DEFAULT_REFRESH_INTERVAL_MS }
    }
}

/// The ancestor of block `b` at height `n`, found by following parents; `None` when `n` is
/// above `b` or a parent on the way is unknown.
pub open spec fn ancestor<C: ChainInfoProvider>(c: C, b: ([u8; 32], u32), n: u32) -> Option<
    ([u8; 32], u32),
>
    decreases b.1 - n,
{
    if b.1 < n {
        None
    } else if b.1 == n {
        Some(b)
    } else {
        match c.parent_hash(b) {
            Some(p) => ancestor(c, (p, (b.1 - 1) as u32), n),
            None => None,
        }
    }
}

/// The block in `o`, if there is one.
pub open spec fn block_of(o: Option<([u8; 32], u32)>) -> ([u8; 32], u32) {
    match o {
        Some(b) => b,
        None => arbitrary(),
    }
}

/// Following parents from `b` to height `m` and then on to `n` is following them to `n`.
pub proof fn lemma_ancestor_trans<C: ChainInfoProvider>(c: C, b: ([u8; 32], u32), m: u32, n: u32)
    requires
        n <= m <= b.1,
        ancestor(c, b, m) is Some,
    ensures
        ancestor(c, b, n) == ancestor(c, block_of(ancestor(c, b, m)), n),
        block_of(ancestor(c, b, m)).1 == m,
    decreases b.1 - m,
{
    if b.1 > m {
        let p = c.parent_hash(b)->0;
        lemma_ancestor_trans(c, (p, (b.1 - 1) as u32), m, n);
    }
}

/// The parent of `block`: `None` for block 0 and for a block whose header is unknown.
pub fn get_parent<C: ChainInfoProvider>(client: &C, block: &BlockId) -> (res: Option<BlockId>)
    ensures
        block.number == 0 ==> res is None,
        block.number > 0 ==> match client.parent_hash(block@) {
            Some(p) => res matches Some(r) && r@ == (p, (block.number - 1) as u32),
            None => res is None,
        },
{
    if block.number == 0 {
        return None;
    }
    match client.get_parent_hash(block) {
        Ok(parent) => Some(BlockId::new(parent, block.number - 1)),
        Err(()) => None,
    }
}

/// The ancestor of `header` at height `num`; every block on the way must be known.
pub fn reduce_header_to_num<C: ChainInfoProvider>(client: &C, header: BlockId, num: BlockNumber) -> (res:
    BlockId)
    requires
        header.number >= num,
        ancestor(*client, header@, num) is Some,
    ensures
        Some(res@) == ancestor(*client, header@, num),
{
    let mut curr = header;
    while curr.number > num
        invariant
            num <= curr.number,
            ancestor(*client, header@, num) is Some,
            ancestor(*client, curr@, num) == ancestor(*client, header@, num),
        decreases curr.number,
    {
        let parent = get_parent(client, &curr);
        match parent {
            Some(p) => {
                curr = p;
            },
            None => {
                proof {
                    assert(false);
                }
                return curr;
            },
        }
    }
    curr
}

/// The hashes of the branch proposed on top of `finalized` when the best block is `best`:
/// the ancestors of `best` from just above `finalized`, at most `MAX_DATA_BRANCH_LEN` of them,
/// lowest first.
pub open spec fn proposal_branch<C: ChainInfoProvider>(
    c: C,
    best: ([u8; 32], u32),
    finalized: ([u8; 32], u32),
) -> Seq<[u8; 32]> {
    let len = if best.1 <= finalized.1 {
        0
    } else if best.1 - finalized.1 <= MAX_DATA_BRANCH_LEN {
        best.1 - finalized.1
    } else {
        MAX_DATA_BRANCH_LEN as int
    };
    Seq::new(len as nat, |i: int| block_of(ancestor(c, best, (finalized.1 + 1 + i) as u32)).0)
}

/// What is proposed when the best block is `best` and `finalized` is the highest finalized
/// block: the branch above `finalized` towards `best`, when `best` descends from `finalized`
/// (or is it); `Err` when following the parents of `best` leads elsewhere.
pub open spec fn proposal_of<C: ChainInfoProvider>(
    c: C,
    best: ([u8; 32], u32),
    finalized: ([u8; 32], u32),
) -> Result<(Seq<[u8; 32]>, u32), ()> {
    let bottom = if best.1 <= finalized.1 {
        best
    } else {
        block_of(ancestor(c, best, finalized.1))
    };
    if bottom.0 == finalized.0 {
        let branch = proposal_branch(c, best, finalized);
        Ok((branch, (finalized.1 + branch.len()) as u32))
    } else {
        Err(())
    }
}

fn reversed(v: &Vec<BlockHash>) -> (res: Vec<BlockHash>)
    ensures
        res@.len() == v@.len(),
        forall|j: int| 0 <= j < v@.len() ==> #[trigger] res@[j] == v@[v@.len() - 1 - j],
{
    let mut res: Vec<BlockHash> = Vec::new();
    let mut i: usize = v.len();
    while i > 0
        invariant
            i <= v.len(),
            res@.len() == v.len() - i,
            forall|j: int| 0 <= j < res@.len() ==> #[trigger] res@[j] == v@[v@.len() - 1 - j],
        decreases i,
    {
        i = i - 1;
        res.push(v[i]);
    }
    res
}

/// The highest block kept in the proposal on top of height `f` towards height `b`.
pub open spec fn branch_top(b: u32, f: u32) -> int {
    if b - f <= MAX_DATA_BRANCH_LEN {
        b as int
    } else {
        f + MAX_DATA_BRANCH_LEN
    }
}

/// The hashes kept, from the top down, once every block above height `n` was visited.
pub open spec fn kept_above<C: ChainInfoProvider>(c: C, best: ([u8; 32], u32), f: u32, n: u32) -> Seq<
    [u8; 32],
> {
    let top = branch_top(best.1, f);
    let cnt = if n < top {
        top - n
    } else {
        0
    };
    Seq::new(cnt as nat, |i: int| block_of(ancestor(c, best, (top - i) as u32)).0)
}

/// A proposal holds at most `MAX_DATA_BRANCH_LEN` blocks, the lowest of them just above the
/// finalized block, and its number is that of its highest block.
pub proof fn lemma_proposal_bounded<C: ChainInfoProvider>(
    c: C,
    best: ([u8; 32], u32),
    finalized: ([u8; 32], u32),
)
    ensures
        proposal_of(c, best, finalized) matches Ok(p) ==> {
            &&& p.0.len() <= MAX_DATA_BRANCH_LEN
            &&& p.0.len() <= if best.1 > finalized.1 { best.1 - finalized.1 } else { 0 }
            &&& p.1 == finalized.1 + p.0.len()
        },
{
}

/// The proposal on top of `finalized_block` towards `best_block`; every block between them
/// must be known.
pub fn get_proposal<C: ChainInfoProvider>(client: &C, best_block: BlockId, finalized_block: BlockId) -> (res:
    Result<AlephData, ()>)
    requires
        best_block.number > finalized_block.number ==> ancestor(
            *client,
            best_block@,
            finalized_block.number,
        ) is Some,
    ensures
        match proposal_of(*client, best_block@, finalized_block@) {
            Ok(p) => res matches Ok(d) && d@ == Some(p),
            Err(()) => res is Err,
        },
{
    let ghost c = *client;
    let ghost f = finalized_block.number;
    let mut curr = best_block;
    let mut branch: Vec<BlockHash> = Vec::new();
    if best_block.number > finalized_block.number {
        while curr.number > finalized_block.number
            invariant
                f == finalized_block.number,
                c == *client,
                best_block.number > f,
                f <= curr.number <= best_block.number,
                ancestor(c, best_block@, f) is Some,
                Some(curr@) == ancestor(c, best_block@, curr.number),
                hashes_view(branch@) == kept_above(c, best_block@, f, curr.number),
            decreases curr.number,
        {
            let ghost n = curr.number;
            proof {
                lemma_ancestor_trans(c, best_block@, n, f);
                lemma_ancestor_trans(c, best_block@, n, (n - 1) as u32);
                assert(c.parent_hash(curr@) is Some);
            }
            let ghost before = hashes_view(branch@);
            if curr.number - finalized_block.number <= MAX_DATA_BRANCH_LEN as u32 {
                branch.push(curr.hash);
                proof {
                    let top = branch_top(best_block.number, f);
                    let after = kept_above(c, best_block@, f, (n - 1) as u32);
                    assert(hashes_view(branch@) == before.push(curr.hash@));
                    assert(after.len() == before.len() + 1);
                    assert forall|i: int| 0 <= i < after.len() implies #[trigger] hashes_view(branch@)[i]
                        == after[i] by {
                        if i == before.len() {
                            assert((top - i) as u32 == n);
                        }
                    }
                    assert(hashes_view(branch@) =~= after);
                }
            } else {
                proof {
                    assert(hashes_view(branch@) =~= kept_above(c, best_block@, f, (n - 1) as u32));
                }
            }
            let ghost prev = curr;
            match get_parent(client, &curr) {
                Some(p) => {
                    curr = p;
                    proof {
                        let ph = c.parent_hash(prev@)->0;
                        assert(curr@ == (ph, (n - 1) as u32));
                        assert(ancestor(c, prev@, (n - 1) as u32) == ancestor(
                            c,
                            (ph, (n - 1) as u32),
                            (n - 1) as u32,
                        ));
                    }
                },
                None => {
                    return Err(());
                },
            }
        }
    }
    if hash_eq(&curr.hash, &finalized_block.hash) {
        proof {
            if best_block.number > f {
                assert(hashes_view(branch@).len() == branch_top(best_block.number, f) - f);
            }
        }
        let num_last = finalized_block.number + branch.len() as u32;
        let branch = reversed(&branch);
        proof {
            let expected = proposal_branch(c, best_block@, finalized_block@);
            if best_block.number > f {
                let top = branch_top(best_block.number, f);
                let kept = kept_above(c, best_block@, f, f);
                assert(hashes_view(branch@).len() == expected.len());
                assert forall|j: int| 0 <= j < expected.len() implies #[trigger] hashes_view(branch@)[j]
                    == expected[j] by {
                    let k = kept.len() - 1 - j;
                    assert(hashes_view(branch@)[j] == kept[k]);
                    assert((top - k) as u32 == (f + 1 + j) as u32);
                }
            }
            assert(hashes_view(branch@) =~= expected);
        }
        Ok(AlephData::HeadProposal(UnvalidatedAlephProposal::new(branch, num_last)))
    } else {
        Err(())
    }
}

/// The ancestor of the best block that lies in the session: none when the best block is
/// below the session, the best block itself when it is within it, and its ancestor at the
/// session's last block when it is above it.
pub open spec fn best_in_session<C: ChainInfoProvider>(
    c: C,
    first: u32,
    last: u32,
    best: ([u8; 32], u32),
) -> Option<([u8; 32], u32)> {
    if best.1 < first {
        None
    } else if best.1 <= last {
        Some(best)
    } else {
        ancestor(c, best, last)
    }
}

/// The best block in the session as the chain tracker computes it, given its previous answer
/// `prev`: like `best_in_session`, except that a previous answer at or above the session's
/// last block from which the best block descends is kept as it is.
pub open spec fn best_in_session_given<C: ChainInfoProvider>(
    c: C,
    first: u32,
    last: u32,
    best: ([u8; 32], u32),
    prev: Option<([u8; 32], u32)>,
) -> Option<([u8; 32], u32)> {
    if best.1 < first || best.1 <= last {
        best_in_session(c, first, last, best)
    } else {
        match prev {
            Some(p) => if p.1 >= last && block_of(ancestor(c, best, p.1)).0 == p.0 {
                Some(p)
            } else {
                ancestor(c, best, last)
            },
            None => ancestor(c, best, last),
        }
    }
}

/// When the previous answer was the block in the session for an earlier best block (at most
/// the session's last block), the tracker's answer is the best block in the session.
pub proof fn lemma_tracked_best_in_session<C: ChainInfoProvider>(
    c: C,
    first: u32,
    last: u32,
    best: ([u8; 32], u32),
    prev: Option<([u8; 32], u32)>,
)
    requires
        prev matches Some(p) ==> p.1 <= last,
        best.1 > last ==> ancestor(c, best, last) is Some,
    ensures
        best_in_session_given(c, first, last, best, prev) == best_in_session(c, first, last, best),
{
    if best.1 >= first && best.1 > last {
        lemma_ancestor_trans(c, best, last, last);
    }
}

/// What the chain tracker last computed a proposal from: the best block in the session and
/// the highest finalized block.
#[derive(Clone, Copy, Debug, PartialEq, Eq)]
pub struct ChainInfo {
    pub best_block_in_session: BlockId,
    pub highest_finalized: BlockId,
}

/// Keeps track of the best block in a session and of the data to propose for it.
pub struct ChainTracker {
    session_boundaries: SessionBoundaries,
    prev_chain_info: Option<ChainInfo>,
    data_to_propose: Option<AlephData>,
    config: ChainTrackerConfig,
}

impl ChainTracker {
    pub closed spec fn first(&self) -> u32 {
        self.session_boundaries.first()
    }

    pub closed spec fn last(&self) -> u32 {
        self.session_boundaries.last()
    }

    /// The inputs of the last computation: best block in session and highest finalized.
    pub closed spec fn prev_inputs(&self) -> Option<(([u8; 32], u32), ([u8; 32], u32))> {
        match self.prev_chain_info {
            Some(i) => Some((i.best_block_in_session@, i.highest_finalized@)),
            None => None,
        }
    }

    /// The data to propose next: `None` for nothing, `Some` of the data's view otherwise.
    pub closed spec fn data(&self) -> Option<Option<(Seq<[u8; 32]>, u32)>> {
        match &self.data_to_propose {
            Some(d) => Some(d@),
            None => None,
        }
    }

    pub closed spec fn config(&self) -> ChainTrackerConfig {
        self.config
    }

    pub fn new(session_boundaries: SessionBoundaries, config: ChainTrackerConfig) -> (res: ChainTracker)
        ensures
            res.first() == session_boundaries.first(),
            res.last() == session_boundaries.last(),
            res.prev_inputs() is None,
            res.data() is None,
            res.config() == config,
    {
        ChainTracker { session_boundaries, prev_chain_info: None, data_to_propose: None, config }
    }

    /// The highest ancestor of `new_best` that lies in the session, given the previous
    /// answer `prev_best_block`: when that was at or above the session's last block and
    /// `new_best` descends from it, it is kept without walking down further.
    pub fn get_best_block_in_session<C: ChainInfoProvider>(
        &self,
        client: &C,
        prev_best_block: Option<BlockId>,
        new_best: BlockId,
    ) -> (res: Option<BlockId>)
        requires
            new_best.number > self.last() ==> ancestor(*client, new_best@, self.last()) is Some,
            new_best.number > self.last() ==> (prev_best_block matches Some(p) ==> (p.number
                >= self.last() ==> p.number <= new_best.number && ancestor(
                *client,
                new_best@,
                p.number,
            ) is Some)),
        ensures
            match best_in_session_given(
                *client,
                self.first(),
                self.last(),
                new_best@,
                match prev_best_block {
                    Some(p) => Some(p@),
                    None => None,
                },
            ) {
                Some(b) => res matches Some(r) && r@ == b,
                None => res is None,
            },
    {
        if new_best.number < self.session_boundaries.first_block() {
            return None;
        }
        let last_block = self.session_boundaries.last_block();
        if new_best.number <= last_block {
            return Some(new_best);
        }
        proof {
            lemma_ancestor_trans(*client, new_best@, last_block, last_block);
        }
        match prev_best_block {
            None => Some(reduce_header_to_num(client, new_best, last_block)),
            Some(prev) => {
                if prev.number < last_block {
                    Some(reduce_header_to_num(client, new_best, last_block))
                } else {
                    let reduced = reduce_header_to_num(client, new_best, prev.number);
                    if !hash_eq(&reduced.hash, &prev.hash) {
                        Some(reduce_header_to_num(client, new_best, last_block))
                    } else {
                        proof {
                            lemma_ancestor_trans(*client, new_best@, prev.number, prev.number);
                        }
                        Some(prev)
                    }
                }
            },
        }
    }

    /// Recomputes the data to propose for `best_block_in_session`, unless the inputs are
    /// the same as last time: nothing when the session is over or nothing is above the
    /// finalized block; the branch on top of the finalized block otherwise. When the best
    /// block is below the finalized one, or the branch does not lead to the finalized block,
    /// the data stays as it was.
    pub fn update_data<C: ChainInfoProvider>(&mut self, client: &C, best_block_in_session: &BlockId)
        requires
            best_block_in_session.number > client.highest_finalized().1 ==> ancestor(
                *client,
                best_block_in_session@,
                client.highest_finalized().1,
            ) is Some,
        ensures
            final(self).first() == old(self).first(),
            final(self).last() == old(self).last(),
            final(self).config() == old(self).config(),
            ({
                let fin = client.highest_finalized();
                let best = best_block_in_session@;
                if fin.1 >= old(self).last() {
                    final(self).data() is None && final(self).prev_inputs() == old(self).prev_inputs()
                } else if old(self).prev_inputs() == Some((best, fin)) {
                    final(self).data() == old(self).data() && final(self).prev_inputs() == old(
                        self,
                    ).prev_inputs()
                } else {
                    &&& final(self).prev_inputs() == Some((best, fin))
                    &&& final(self).data() == if best.1 == fin.1 {
                        None
                    } else if best.1 < fin.1 {
                        old(self).data()
                    } else {
                        match proposal_of(*client, best, fin) {
                            Ok(p) => Some(Some(p)),
                            Err(()) => old(self).data(),
                        }
                    }
                }
            }),
    {
        let finalized_block = client.get_highest_finalized();
        if finalized_block.number >= self.session_boundaries.last_block() {
            self.data_to_propose = None;
            return;
        }
        if let Some(prev) = &self.prev_chain_info {
            if block_id_eq(&prev.best_block_in_session, best_block_in_session) && block_id_eq(
                &prev.highest_finalized,
                &finalized_block,
            ) {
                return;
            }
        }
        self.prev_chain_info = Some(
            ChainInfo { best_block_in_session: *best_block_in_session, highest_finalized: finalized_block },
        );
        if best_block_in_session.number == finalized_block.number {
            self.data_to_propose = None;
            return;
        }
        if best_block_in_session.number < finalized_block.number {
            return;
        }
        if let Ok(proposal) = get_proposal(client, *best_block_in_session, finalized_block) {
            self.data_to_propose = Some(proposal);
        }
    }

    /// Takes out the data to propose, leaving nothing: what the data provider hands to the
    /// ordering on each request.
    pub fn take_data(&mut self) -> (res: Option<AlephData>)
        ensures
            match old(self).data() {
                Some(d) => res matches Some(r) && r@ == d,
                None => res is None,
            },
            final(self).data() is None,
            final(self).prev_inputs() == old(self).prev_inputs(),
            final(self).first() == old(self).first(),
            final(self).last() == old(self).last(),
            final(self).config() == old(self).config(),
    {
        let mut data: Option<AlephData> = None;
        std::mem::swap(&mut data, &mut self.data_to_propose);
        data
    }
}

} // verus!
