//! Holds back network messages until the blocks they refer to are available, and releases
//! each message, in the order it arrived, once all of them are.
use vstd::prelude::*;

use crate::data_io::proposal::hashes_view;
use crate::primitives::{hash_eq, BlockHash};

verus! {

/// `s` without the occurrences of `h`.
pub open spec fn without(s: Seq<[u8; 32]>, h: [u8; 32]) -> Seq<[u8; 32]>
    decreases s.len(),
{
    if s.len() == 0 {
        s
    } else {
        let rest = without(s.drop_last(), h);
        if s.last() == h {
            rest
        } else {
            rest.push(s.last())
        }
    }
}

/// Going through `included` in order with `available` blocks: the blocks still required
/// (neither available nor known to the client), and the available blocks afterwards (those
/// the client knows become available as they are met).
pub open spec fn requirements_of(
    available: Set<[u8; 32]>,
    included: Seq<[u8; 32]>,
    known: Seq<bool>,
) -> (Seq<[u8; 32]>, Set<[u8; 32]>)
    decreases included.len(),
{
    if included.len() == 0 {
        (Seq::empty(), available)
    } else {
        let n = included.len() - 1;
        let (reqs, avail) = requirements_of(available, included.drop_last(), known.subrange(0, n));
        let b = included.last();
        if avail.contains(b) {
            (reqs, avail)
        } else if known[n] {
            (reqs, avail.insert(b))
        } else {
            (reqs.push(b), avail)
        }
    }
}

/// A message waiting for blocks: its number, the message, and the blocks it still needs.
pub struct PendingMessage<M> {
    pub id: u64,
    pub message: M,
    pub requirements: Vec<BlockHash>,
}

/// The view of pending messages.
pub open spec fn pending_view<M>(s: Seq<PendingMessage<M>>) -> Seq<(u64, M, Seq<[u8; 32]>)> {
    s.map_values(|p: PendingMessage<M>| (p.id, p.message, hashes_view(p.requirements@)))
}

/// The messages that stay pending once block `h` is available, with what they still need.
pub open spec fn kept_after<M>(pending: Seq<(u64, M, Seq<[u8; 32]>)>, h: [u8; 32]) -> Seq<
    (u64, M, Seq<[u8; 32]>),
>
    decreases pending.len(),
{
    if pending.len() == 0 {
        Seq::empty()
    } else {
        let rest = kept_after(pending.drop_last(), h);
        let p = pending.last();
        let r = without(p.2, h);
        if r.len() == 0 {
            rest
        } else {
            rest.push((p.0, p.1, r))
        }
    }
}

/// The messages released once block `h` is available, in order.
pub open spec fn released_after<M>(pending: Seq<(u64, M, Seq<[u8; 32]>)>, h: [u8; 32]) -> Seq<M>
    decreases pending.len(),
{
    if pending.len() == 0 {
        Seq::empty()
    } else {
        let rest = released_after(pending.drop_last(), h);
        let p = pending.last();
        if without(p.2, h).len() == 0 {
            rest.push(p.1)
        } else {
            rest
        }
    }
}

proof fn lemma_without_excludes(s: Seq<[u8; 32]>, h: [u8; 32])
    ensures
        !without(s, h).contains(h),
    decreases s.len(),
{
    if s.len() > 0 {
        lemma_without_excludes(s.drop_last(), h);
        let rest = without(s.drop_last(), h);
        if s.last() != h {
            assert forall|i: int| 0 <= i < rest.push(s.last()).len() implies rest.push(s.last())[i] != h by {
                if i < rest.len() {
                    assert(rest.push(s.last())[i] == rest[i]);
                }
            }
        }
    }
}

/// Once block `h` is available, no message still waits for it.
pub proof fn lemma_no_message_waits_for_available_block<M>(
    pending: Seq<(u64, M, Seq<[u8; 32]>)>,
    h: [u8; 32],
)
    ensures
        forall|i: int|
            0 <= i < kept_after(pending, h).len() ==> !(#[trigger] kept_after(pending, h)[i]).2.contains(h),
    decreases pending.len(),
{
    if pending.len() > 0 {
        lemma_no_message_waits_for_available_block(pending.drop_last(), h);
        lemma_without_excludes(pending.last().2, h);
        let rest = kept_after(pending.drop_last(), h);
        let k = kept_after(pending, h);
        assert forall|i: int| 0 <= i < k.len() implies !(#[trigger] k[i]).2.contains(h) by {
            if i < rest.len() {
                assert(k[i] == rest[i]);
            }
        }
    }
}

/// Messages waiting for blocks.
pub struct DataStore<M> {
    next_message_id: u64,
    available_blocks: Vec<BlockHash>,
    pending_messages: Vec<PendingMessage<M>>,
}

impl<M> DataStore<M> {
    /// The blocks known to be available.
    pub closed spec fn available(&self) -> Set<[u8; 32]> {
        hashes_view(self.available_blocks@).to_set()
    }

    /// The pending messages, in the order they arrived, with what they still need.
    pub closed spec fn pending(&self) -> Seq<(u64, M, Seq<[u8; 32]>)> {
        pending_view(self.pending_messages@)
    }

    /// The number the next pending message gets.
    pub closed spec fn next_id(&self) -> u64 {
        self.next_message_id
    }

    pub fn new() -> (res: DataStore<M>)
        ensures
            res.available() == Set::<[u8; 32]>::empty(),
            res.pending() == Seq::<(u64, M, Seq<[u8; 32]>)>::empty(),
            res.next_id() == 0,
    {
        let res = DataStore {
            next_message_id: 0,
            available_blocks: Vec::new(),
            pending_messages: Vec::new(),
        };
        assert(res.available() =~= Set::<[u8; 32]>::empty());
        assert(res.pending() =~= Seq::<(u64, M, Seq<[u8; 32]>)>::empty());
        res
    }

    fn is_available(&self, h: &BlockHash) -> (res: bool)
        ensures
            res == self.available().contains(h@),
    {
        let mut i: usize = 0;
        while i < self.available_blocks.len()
            invariant
                i <= self.available_blocks.len(),
                forall|j: int| 0 <= j < i ==> self.available_blocks@[j]@ != h@,
            decreases self.available_blocks.len() - i,
        {
            if hash_eq(&self.available_blocks[i], h) {
                assert(hashes_view(self.available_blocks@)[i as int] == h@);
                return true;
            }
            i = i + 1;
        }
        proof {
            if self.available().contains(h@) {
                let hs = hashes_view(self.available_blocks@);
                let j = choose|j: int| 0 <= j < hs.len() && hs[j] == h@;
                assert(self.available_blocks@[j]@ == h@);
            }
        }
        false
    }

    fn make_available(&mut self, h: BlockHash)
        ensures
            final(self).available() == old(self).available().insert(h@),
            final(self).pending() == old(self).pending(),
            final(self).next_id() == old(self).next_id(),
    {
        self.available_blocks.push(h);
        proof {
            assert(hashes_view(self.available_blocks@) =~= hashes_view(old(self).available_blocks@).push(h@));
            hashes_view(old(self).available_blocks@).lemma_push_to_set_commute(h@);
        }
    }

    /// Takes in a message that refers to the blocks `included`; `known[i]` says whether the
    /// client knows the header of `included[i]` (asked only of blocks not available yet).
    /// Returns the message when every block it refers to is available; otherwise it waits.
    pub fn add_message(&mut self, message: M, included: &Vec<BlockHash>, known: &Vec<bool>) -> (res:
        Option<M>)
        requires
            known.len() == included.len(),
            requirements_of(old(self).available(), hashes_view(included@), known@).0.len() > 0
                ==> old(self).next_id() < u64::MAX,
        ensures
            ({
                let (reqs, avail) = requirements_of(
                    old(self).available(),
                    hashes_view(included@),
                    known@,
                );
                &&& final(self).available() == avail
                &&& reqs.len() == 0 ==> res == Some(message) && final(self).pending() == old(
                    self,
                ).pending() && final(self).next_id() == old(self).next_id()
                &&& reqs.len() > 0 ==> res is None && final(self).pending() == old(self).pending().push(
                    (old(self).next_id(), message, reqs),
                ) && final(self).next_id() == old(self).next_id() + 1
            }),
    {
        let mut requirements: Vec<BlockHash> = Vec::new();
        let mut i: usize = 0;
        while i < included.len()
            invariant
                i <= included.len(),
                known.len() == included.len(),
                self.pending() == old(self).pending(),
                self.next_id() == old(self).next_id(),
                (hashes_view(requirements@), self.available()) == requirements_of(
                    old(self).available(),
                    hashes_view(included@).subrange(0, i as int),
                    known@.subrange(0, i as int),
                ),
            decreases included.len() - i,
        {
            proof {
                assert(hashes_view(included@).subrange(0, i + 1).drop_last() =~= hashes_view(
                    included@,
                ).subrange(0, i as int));
                assert(known@.subrange(0, i + 1).subrange(0, i as int) =~= known@.subrange(
                    0,
                    i as int,
                ));
            }
            let b = included[i];
            if self.is_available(&b) {
            } else if known[i] {
                self.make_available(b);
            } else {
                requirements.push(b);
                proof {
                    assert(hashes_view(requirements@) =~= hashes_view(
                        requirements@.drop_last(),
                    ).push(b@));
                }
            }
            i = i + 1;
        }
        proof {
            assert(hashes_view(included@).subrange(0, included.len() as int) =~= hashes_view(
                included@,
            ));
            assert(known@.subrange(0, known.len() as int) =~= known@);
        }
        if requirements.len() == 0 {
            Some(message)
        } else {
            let id = self.next_message_id;
            self.next_message_id = id + 1;
            self.pending_messages.push(PendingMessage { id, message, requirements });
            proof {
                assert(self.pending() =~= old(self).pending().push(
                    (id, message, hashes_view(requirements@)),
                ));
            }
            None
        }
    }

    /// The blocks some pending message waits for, each once: those to look for again when
    /// the client may have imported them meanwhile.
    pub fn required_blocks(&self) -> (res: Vec<BlockHash>)
        ensures
            hashes_view(res@).no_duplicates(),
            forall|h: [u8; 32]|
                hashes_view(res@).contains(h) <==> exists|i: int|
                    0 <= i < self.pending().len() && (#[trigger] self.pending()[i]).2.contains(h),
    {
        let mut res: Vec<BlockHash> = Vec::new();
        let mut i: usize = 0;
        while i < self.pending_messages.len()
            invariant
                i <= self.pending_messages.len(),
                hashes_view(res@).no_duplicates(),
                forall|h: [u8; 32]|
                    hashes_view(res@).contains(h) <==> exists|k: int|
                        0 <= k < i && (#[trigger] self.pending()[k]).2.contains(h),
            decreases self.pending_messages.len() - i,
        {
            let reqs = &self.pending_messages[i].requirements;
            assert(self.pending()[i as int].2 == hashes_view(reqs@));
            let mut j: usize = 0;
            while j < reqs.len()
                invariant
                    j <= reqs.len(),
                    i < self.pending_messages.len(),
                    self.pending().len() == self.pending_messages.len(),
                    self.pending()[i as int].2 == hashes_view(reqs@),
                    hashes_view(res@).no_duplicates(),
                    forall|h: [u8; 32]|
                        hashes_view(res@).contains(h) <==> (exists|k: int|
                            0 <= k < i && (#[trigger] self.pending()[k]).2.contains(h))
                            || hashes_view(reqs@).subrange(0, j as int).contains(h),
                decreases reqs.len() - j,
            {
                let h = reqs[j];
                let ghost before = hashes_view(res@);
                let ghost sub = hashes_view(reqs@).subrange(0, j as int);
                let present = contains_hash(&res, &h);
                if !present {
                    res.push(h);
                    proof {
                        assert(hashes_view(res@) =~= before.push(h@));
                        lemma_push_contains(before, h@);
                    }
                }
                proof {
                    assert(hashes_view(reqs@)[j as int] == h@);
                    assert(hashes_view(reqs@).subrange(0, j + 1) =~= sub.push(h@));
                    lemma_push_contains(sub, h@);
                    assert forall|x: [u8; 32]|
                        hashes_view(res@).contains(x) <==> (exists|k: int|
                            0 <= k < i && (#[trigger] self.pending()[k]).2.contains(x))
                            || hashes_view(reqs@).subrange(0, j + 1).contains(x) by {
                        assert(before.contains(x) <==> (exists|k: int|
                            0 <= k < i && (#[trigger] self.pending()[k]).2.contains(x))
                            || sub.contains(x));
                    }
                }
                j = j + 1;
            }
            proof {
                assert(hashes_view(reqs@).subrange(0, reqs.len() as int) =~= hashes_view(reqs@));
                assert forall|x: [u8; 32]| hashes_view(res@).contains(x) <==> exists|k: int|
                    0 <= k < i + 1 && (#[trigger] self.pending()[k]).2.contains(x) by {
                    if hashes_view(reqs@).contains(x) {
                        assert(self.pending()[i as int].2.contains(x));
                    }
                    if exists|k: int| 0 <= k < i + 1 && (#[trigger] self.pending()[k]).2.contains(x) {
                        let k = choose|k: int| 0 <= k < i + 1 && (#[trigger] self.pending()[k]).2.contains(x);
                        if k == i {
                            assert(hashes_view(reqs@).contains(x));
                        }
                    }
                }
            }
            i = i + 1;
        }
        res
    }

    /// Notes that block `h` is available, and returns the messages that no longer wait for
    /// anything, in the order they arrived.
    pub fn add_block(&mut self, h: BlockHash) -> (res: Vec<M>)
        ensures
            final(self).available() == old(self).available().insert(h@),
            final(self).pending() == kept_after(old(self).pending(), h@),
            res@ == released_after(old(self).pending(), h@),
            final(self).next_id() == old(self).next_id(),
    {
        self.make_available(h);
        let mut old_pending: Vec<PendingMessage<M>> = Vec::new();
        std::mem::swap(&mut old_pending, &mut self.pending_messages);
        let ghost all = pending_view(old_pending@);
        assert(all.len() == old_pending.len());
        let mut released: Vec<M> = Vec::new();
        let mut kept: Vec<PendingMessage<M>> = Vec::new();
        let mut taken: usize = 0;
        while old_pending.len() > 0
            invariant
                taken + old_pending.len() == all.len(),
                all.len() <= usize::MAX,
                pending_view(old_pending@) == all.subrange(taken as int, all.len() as int),
                pending_view(kept@) == kept_after(all.subrange(0, taken as int), h@),
                released@ == released_after(all.subrange(0, taken as int), h@),
            decreases old_pending.len(),
        {
            let ghost before = pending_view(old_pending@);
            let p = old_pending.remove(0);
            proof {
                assert(before[0] == (p.id, p.message, hashes_view(p.requirements@)));
                assert(pending_view(old_pending@) =~= before.subrange(1, before.len() as int));
                assert(all.subrange(0, taken + 1).drop_last() =~= all.subrange(0, taken as int));
                assert(all.subrange(0, taken + 1).last() == before[0]);
            }
            let remaining = without_hash(&p.requirements, &h);
            if remaining.len() == 0 {
                released.push(p.message);
            } else {
                let ghost kv = pending_view(kept@);
                kept.push(PendingMessage { id: p.id, message: p.message, requirements: remaining });
                proof {
                    assert(pending_view(kept@) =~= kv.push(
                        (p.id, p.message, hashes_view(remaining@)),
                    ));
                }
            }
            taken = taken + 1;
            proof {
                assert(pending_view(old_pending@) =~= all.subrange(taken as int, all.len() as int));
            }
        }
        proof {
            assert(all.subrange(0, all.len() as int) =~= all);
        }
        self.pending_messages = kept;
        released
    }
}

proof fn lemma_push_contains(s: Seq<[u8; 32]>, a: [u8; 32])
    ensures
        forall|x: [u8; 32]| s.push(a).contains(x) <==> (s.contains(x) || x == a),
{
    assert forall|x: [u8; 32]| s.push(a).contains(x) <==> (s.contains(x) || x == a) by {
        if s.contains(x) {
            let m = choose|m: int| 0 <= m < s.len() && s[m] == x;
            assert(s.push(a)[m] == x);
        }
        if x == a {
            assert(s.push(a)[s.len() as int] == x);
        }
        if s.push(a).contains(x) && x != a {
            let m = choose|m: int| 0 <= m < s.len() + 1 && s.push(a)[m] == x;
            assert(s[m] == x);
        }
    }
}

/// Whether `h` occurs in `v`.
fn contains_hash(v: &Vec<BlockHash>, h: &BlockHash) -> (res: bool)
    ensures
        res == hashes_view(v@).contains(h@),
{
    let mut i: usize = 0;
    while i < v.len()
        invariant
            i <= v.len(),
            forall|k: int| 0 <= k < i ==> v@[k]@ != h@,
        decreases v.len() - i,
    {
        if hash_eq(&v[i], h) {
            assert(hashes_view(v@)[i as int] == h@);
            return true;
        }
        i = i + 1;
    }
    proof {
        if hashes_view(v@).contains(h@) {
            let k = choose|k: int| 0 <= k < hashes_view(v@).len() && hashes_view(v@)[k] == h@;
            assert(v@[k]@ == h@);
        }
    }
    false
}

/// `v` without the occurrences of `h`.
fn without_hash(v: &Vec<BlockHash>, h: &BlockHash) -> (res: Vec<BlockHash>)
    ensures
        hashes_view(res@) == without(hashes_view(v@), h@),
{
    let mut res: Vec<BlockHash> = Vec::new();
    let mut i: usize = 0;
    while i < v.len()
        invariant
            i <= v.len(),
            hashes_view(res@) == without(hashes_view(v@).subrange(0, i as int), h@),
        decreases v.len() - i,
    {
        proof {
            assert(hashes_view(v@).subrange(0, i + 1).drop_last() =~= hashes_view(v@).subrange(
                0,
                i as int,
            ));
        }
        if !hash_eq(&v[i], h) {
            let ghost before = hashes_view(res@);
            res.push(v[i]);
            assert(hashes_view(res@) =~= before.push(v@[i as int]@));
        }
        i = i + 1;
    }
    assert(hashes_view(v@).subrange(0, v.len() as int) =~= hashes_view(v@));
    res
}

} // verus!
