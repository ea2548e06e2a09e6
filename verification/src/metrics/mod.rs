//! Timing of blocks through the stages of finalization, and finality-rate bookkeeping.
pub mod chain_status;
pub mod finality_rate;

use lru::LruCache;
use vstd::prelude::*;

use crate::lru_cache::{
    entries_after_get, entries_after_pop, entries_after_put, entries_wf, key_index, lru_capacity,
    lemma_get_wf, lemma_pop_wf, lemma_put_wf, lru_contains, lru_entries, lru_get, lru_len, lru_new,
    lru_pop_entry, lru_push, lru_put, lru_to_vec, value_of,
};
use crate::primitives::BlockHash;

verus! {

/// How many entries (block hash and timestamp) are kept per checkpoint type.
pub const MAX_BLOCKS_PER_CHECKPOINT: usize = 5000;

/// The stages a block goes through on its way to finalization.
#[derive(Clone, Copy, Debug, PartialEq, Eq, Structural, Hash)]
pub enum Checkpoint {
    Importing,
    Imported,
    /// Proposed for ordering.
    Proposed,
    Ordered,
    Finalized,
}

/// The stage before `c`, if any.
pub open spec fn prev_checkpoint(c: Checkpoint) -> Option<Checkpoint> {
    match c {
        Checkpoint::Importing => None,
        Checkpoint::Imported => Some(Checkpoint::Importing),
        Checkpoint::Proposed => Some(Checkpoint::Imported),
        Checkpoint::Ordered => Some(Checkpoint::Proposed),
        Checkpoint::Finalized => Some(Checkpoint::Ordered),
    }
}

impl Checkpoint {
    /// The stage before this one, if any.
    pub fn prev(&self) -> (res: Option<Checkpoint>)
        ensures
            res == prev_checkpoint(*self),
    {
        match self {
            Checkpoint::Importing => None,
            Checkpoint::Imported => Some(Checkpoint::Importing),
            Checkpoint::Proposed => Some(Checkpoint::Imported),
            Checkpoint::Ordered => Some(Checkpoint::Proposed),
            Checkpoint::Finalized => Some(Checkpoint::Ordered),
        }
    }
}

/// Which histogram an observation goes to.
#[derive(Clone, Copy, Debug, PartialEq, Eq, Structural)]
pub enum ObservationKind {
    /// Time from the previous checkpoint of a block to the given one.
    TimeSincePrevCheckpoint(Checkpoint),
    /// Time from the import of a block to its finalization.
    ImportedToFinalized,
}

/// A duration to record in a histogram, in the units of the timestamps reported.
#[derive(Clone, Copy, Debug, PartialEq, Eq, Structural)]
pub struct Observation {
    pub kind: ObservationKind,
    pub duration: u64,
}

/// Time from `start` to `end`, zero when the clock went backwards.
pub open spec fn elapsed(start: u64, end: u64) -> u64 {
    if end >= start {
        (end - start) as u64
    } else {
        0
    }
}

/// The caches of the times at which blocks reached each checkpoint.
pub struct CheckpointStarts {
    importing: LruCache<BlockHash, u64>,
    imported: LruCache<BlockHash, u64>,
    proposed: LruCache<BlockHash, u64>,
    ordered: LruCache<BlockHash, u64>,
    finalized: LruCache<BlockHash, u64>,
}

/// Per checkpoint type, the blocks that reached it with their times, most recent first.
pub type StartsView = Map<Checkpoint, Seq<([u8; 32], u64)>>;

impl CheckpointStarts {
    pub closed spec fn view_map(&self) -> StartsView {
        Map::new(
            |c: Checkpoint| true,
            |c: Checkpoint|
                match c {
                    Checkpoint::Importing => lru_entries(self.importing),
                    Checkpoint::Imported => lru_entries(self.imported),
                    Checkpoint::Proposed => lru_entries(self.proposed),
                    Checkpoint::Ordered => lru_entries(self.ordered),
                    Checkpoint::Finalized => lru_entries(self.finalized),
                },
        )
    }

    pub closed spec fn wf(&self) -> bool {
        &&& lru_capacity(self.importing) == MAX_BLOCKS_PER_CHECKPOINT
        &&& lru_capacity(self.imported) == MAX_BLOCKS_PER_CHECKPOINT
        &&& lru_capacity(self.proposed) == MAX_BLOCKS_PER_CHECKPOINT
        &&& lru_capacity(self.ordered) == MAX_BLOCKS_PER_CHECKPOINT
        &&& lru_capacity(self.finalized) == MAX_BLOCKS_PER_CHECKPOINT
        &&& entries_wf(lru_entries(self.importing), MAX_BLOCKS_PER_CHECKPOINT as nat)
        &&& entries_wf(lru_entries(self.imported), MAX_BLOCKS_PER_CHECKPOINT as nat)
        &&& entries_wf(lru_entries(self.proposed), MAX_BLOCKS_PER_CHECKPOINT as nat)
        &&& entries_wf(lru_entries(self.ordered), MAX_BLOCKS_PER_CHECKPOINT as nat)
        &&& entries_wf(lru_entries(self.finalized), MAX_BLOCKS_PER_CHECKPOINT as nat)
    }

    /// Every cache is well formed.
    pub proof fn lemma_wf(&self)
        requires
            self.wf(),
        ensures
            forall|c: Checkpoint|
                entries_wf(#[trigger] self.view_map()[c], MAX_BLOCKS_PER_CHECKPOINT as nat),
    {
    }

    fn new() -> (res: CheckpointStarts)
        ensures
            res.wf(),
            forall|c: Checkpoint| #[trigger] res.view_map()[c] == Seq::<([u8; 32], u64)>::empty(),
    {
        CheckpointStarts {
            importing: lru_new(MAX_BLOCKS_PER_CHECKPOINT),
            imported: lru_new(MAX_BLOCKS_PER_CHECKPOINT),
            proposed: lru_new(MAX_BLOCKS_PER_CHECKPOINT),
            ordered: lru_new(MAX_BLOCKS_PER_CHECKPOINT),
            finalized: lru_new(MAX_BLOCKS_PER_CHECKPOINT),
        }
    }

    fn put(&mut self, c: Checkpoint, k: BlockHash, v: u64)
        requires
            old(self).wf(),
        ensures
            final(self).wf(),
            final(self).view_map() == old(self).view_map().insert(
                c,
                entries_after_put(
                    old(self).view_map()[c],
                    MAX_BLOCKS_PER_CHECKPOINT as nat,
                    k@,
                    v,
                ),
            ),
    {
        match c {
            Checkpoint::Importing => lru_put(&mut self.importing, k, v),
            Checkpoint::Imported => lru_put(&mut self.imported, k, v),
            Checkpoint::Proposed => lru_put(&mut self.proposed, k, v),
            Checkpoint::Ordered => lru_put(&mut self.ordered, k, v),
            Checkpoint::Finalized => lru_put(&mut self.finalized, k, v),
        }
        proof {
            old(self).lemma_wf();
            lemma_put_wf(old(self).view_map()[c], MAX_BLOCKS_PER_CHECKPOINT as nat, k@, v);
            assert(self.view_map() =~= old(self).view_map().insert(
                c,
                entries_after_put(
                    old(self).view_map()[c],
                    MAX_BLOCKS_PER_CHECKPOINT as nat,
                    k@,
                    v,
                ),
            ));
        }
    }

    fn push(&mut self, c: Checkpoint, k: BlockHash, v: u64)
        requires
            old(self).wf(),
        ensures
            final(self).wf(),
            final(self).view_map() == old(self).view_map().insert(
                c,
                entries_after_put(
                    old(self).view_map()[c],
                    MAX_BLOCKS_PER_CHECKPOINT as nat,
                    k@,
                    v,
                ),
            ),
    {
        match c {
            Checkpoint::Importing => lru_push(&mut self.importing, k, v),
            Checkpoint::Imported => lru_push(&mut self.imported, k, v),
            Checkpoint::Proposed => lru_push(&mut self.proposed, k, v),
            Checkpoint::Ordered => lru_push(&mut self.ordered, k, v),
            Checkpoint::Finalized => lru_push(&mut self.finalized, k, v),
        }
        proof {
            old(self).lemma_wf();
            lemma_put_wf(old(self).view_map()[c], MAX_BLOCKS_PER_CHECKPOINT as nat, k@, v);
            assert(self.view_map() =~= old(self).view_map().insert(
                c,
                entries_after_put(
                    old(self).view_map()[c],
                    MAX_BLOCKS_PER_CHECKPOINT as nat,
                    k@,
                    v,
                ),
            ));
        }
    }

    fn get(&mut self, c: Checkpoint, k: &BlockHash) -> (res: Option<u64>)
        requires
            old(self).wf(),
        ensures
            final(self).wf(),
            res == value_of(old(self).view_map()[c], k@),
            final(self).view_map() == old(self).view_map().insert(
                c,
                entries_after_get(old(self).view_map()[c], k@),
            ),
    {
        let res = match c {
            Checkpoint::Importing => lru_get(&mut self.importing, k),
            Checkpoint::Imported => lru_get(&mut self.imported, k),
            Checkpoint::Proposed => lru_get(&mut self.proposed, k),
            Checkpoint::Ordered => lru_get(&mut self.ordered, k),
            Checkpoint::Finalized => lru_get(&mut self.finalized, k),
        };
        proof {
            old(self).lemma_wf();
            lemma_get_wf(old(self).view_map()[c], MAX_BLOCKS_PER_CHECKPOINT as nat, k@);
            assert(self.view_map() =~= old(self).view_map().insert(
                c,
                entries_after_get(old(self).view_map()[c], k@),
            ));
        }
        res
    }

    fn pop_entry(&mut self, c: Checkpoint, k: &BlockHash) -> (res: Option<(BlockHash, u64)>)
        requires
            old(self).wf(),
        ensures
            final(self).wf(),
            match res {
                Some((key, v)) => key@ == k@ && value_of(old(self).view_map()[c], k@) == Some(v),
                None => value_of(old(self).view_map()[c], k@) is None,
            },
            final(self).view_map() == old(self).view_map().insert(
                c,
                entries_after_pop(old(self).view_map()[c], k@),
            ),
    {
        let res = match c {
            Checkpoint::Importing => lru_pop_entry(&mut self.importing, k),
            Checkpoint::Imported => lru_pop_entry(&mut self.imported, k),
            Checkpoint::Proposed => lru_pop_entry(&mut self.proposed, k),
            Checkpoint::Ordered => lru_pop_entry(&mut self.ordered, k),
            Checkpoint::Finalized => lru_pop_entry(&mut self.finalized, k),
        };
        proof {
            old(self).lemma_wf();
            lemma_pop_wf(old(self).view_map()[c], MAX_BLOCKS_PER_CHECKPOINT as nat, k@);
            assert(self.view_map() =~= old(self).view_map().insert(
                c,
                entries_after_pop(old(self).view_map()[c], k@),
            ));
        }
        res
    }

    fn contains(&self, c: Checkpoint, k: &BlockHash) -> (res: bool)
        ensures
            res == (key_index(self.view_map()[c], k@) is Some),
    {
        match c {
            Checkpoint::Importing => lru_contains(&self.importing, k),
            Checkpoint::Imported => lru_contains(&self.imported, k),
            Checkpoint::Proposed => lru_contains(&self.proposed, k),
            Checkpoint::Ordered => lru_contains(&self.ordered, k),
            Checkpoint::Finalized => lru_contains(&self.finalized, k),
        }
    }

    fn len(&self, c: Checkpoint) -> (res: usize)
        ensures
            res == self.view_map()[c].len(),
    {
        match c {
            Checkpoint::Importing => lru_len(&self.importing),
            Checkpoint::Imported => lru_len(&self.imported),
            Checkpoint::Proposed => lru_len(&self.proposed),
            Checkpoint::Ordered => lru_len(&self.ordered),
            Checkpoint::Finalized => lru_len(&self.finalized),
        }
    }

    fn entries(&self, c: Checkpoint) -> (res: Vec<(BlockHash, u64)>)
        ensures
            res@.map_values(|e: (BlockHash, u64)| (e.0@, e.1)) == self.view_map()[c],
    {
        match c {
            Checkpoint::Importing => lru_to_vec(&self.importing),
            Checkpoint::Imported => lru_to_vec(&self.imported),
            Checkpoint::Proposed => lru_to_vec(&self.proposed),
            Checkpoint::Ordered => lru_to_vec(&self.ordered),
            Checkpoint::Finalized => lru_to_vec(&self.finalized),
        }
    }
}

/// Block timing metrics: for each checkpoint type, the times at which recent blocks reached
/// it, from which the time between checkpoints is computed. `Noop` keeps nothing.
pub enum BlockMetrics {
    Prometheus { starts: CheckpointStarts },
    Noop,
}

/// The observations that reporting block `h` at checkpoint `c` at time `t` makes, and the
/// caches afterwards. The block's time is stored under `c`; when it is found under the
/// previous checkpoint, the time since then is observed; and at finalization the time since
/// its import is observed too. Looking a block up makes it the most recently used.
pub open spec fn report_effect(s: StartsView, h: [u8; 32], t: u64, c: Checkpoint) -> (
    StartsView,
    Seq<Observation>,
) {
    let cap = MAX_BLOCKS_PER_CHECKPOINT as nat;
    let s1 = s.insert(c, entries_after_put(s[c], cap, h, t));
    let (s2, o1) = match prev_checkpoint(c) {
        Some(p) => (
            s1.insert(p, entries_after_get(s1[p], h)),
            match value_of(s1[p], h) {
                Some(start) => seq![
                    Observation {
                        kind: ObservationKind::TimeSincePrevCheckpoint(c),
                        duration: elapsed(start, t),
                    },
                ],
                None => Seq::empty(),
            },
        ),
        None => (s1, Seq::empty()),
    };
    if c == Checkpoint::Finalized {
        (
            s2.insert(Checkpoint::Imported, entries_after_get(s2[Checkpoint::Imported], h)),
            o1 + match value_of(s2[Checkpoint::Imported], h) {
                Some(start) => seq![
                    Observation { kind: ObservationKind::ImportedToFinalized, duration: elapsed(start, t) },
                ],
                None => Seq::empty(),
            },
        )
    } else {
        (s2, o1)
    }
}

/// Looking a key up changes the order of the entries, not their number.
proof fn lemma_get_keeps_len(s: Seq<([u8; 32], u64)>, k: [u8; 32])
    ensures
        entries_after_get(s, k).len() == s.len(),
{
}

/// Reporting a block at a checkpoint changes the number of blocks remembered at that
/// checkpoint only: the caches of different checkpoints are managed independently.
pub proof fn lemma_report_keeps_other_checkpoints(
    s: StartsView,
    h: [u8; 32],
    t: u64,
    c: Checkpoint,
    other: Checkpoint,
)
    requires
        other != c,
    ensures
        report_effect(s, h, t, c).0[other].len() == s[other].len(),
{
    let s1 = s.insert(c, entries_after_put(s[c], MAX_BLOCKS_PER_CHECKPOINT as nat, h, t));
    if let Some(p) = prev_checkpoint(c) {
        lemma_get_keeps_len(s1[p], h);
        let s2 = s1.insert(p, entries_after_get(s1[p], h));
        lemma_get_keeps_len(s2[Checkpoint::Imported], h);
    }
}

/// When a block was remembered at the previous checkpoint at time `start`, reporting it at
/// `c` at time `t` observes the time from `start` to `t` for `c`.
pub proof fn lemma_report_observes_time_since_prev(
    s: StartsView,
    h: [u8; 32],
    t: u64,
    c: Checkpoint,
    start: u64,
)
    requires
        prev_checkpoint(c) matches Some(p) && value_of(s[p], h) == Some(start),
    ensures
        report_effect(s, h, t, c).1.len() > 0,
        report_effect(s, h, t, c).1[0] == (Observation {
            kind: ObservationKind::TimeSincePrevCheckpoint(c),
            duration: elapsed(start, t),
        }),
{
}

/// The caches after blocks `hs` are reported at checkpoint `c` one after another, block
/// `hs[i]` at time `ts[i]`.
pub open spec fn reports_effect(s: StartsView, hs: Seq<[u8; 32]>, ts: Seq<u64>, c: Checkpoint) -> StartsView
    decreases hs.len(),
{
    if hs.len() == 0 {
        s
    } else {
        let n = hs.len() - 1;
        report_effect(reports_effect(s, hs.drop_last(), ts, c), hs[n], ts[n], c).0
    }
}

/// Reporting at `c` puts the block into the cache of `c` and touches no other part of it.
proof fn lemma_report_puts(s: StartsView, h: [u8; 32], t: u64, c: Checkpoint)
    ensures
        report_effect(s, h, t, c).0[c] == entries_after_put(
            s[c],
            MAX_BLOCKS_PER_CHECKPOINT as nat,
            h,
            t,
        ),
{
}

proof fn lemma_reports_grow(s: StartsView, hs: Seq<[u8; 32]>, ts: Seq<u64>, c: Checkpoint)
    requires
        entries_wf(s[c], MAX_BLOCKS_PER_CHECKPOINT as nat),
        hs.no_duplicates(),
        forall|i: int, j: int| 0 <= i < hs.len() && 0 <= j < s[c].len() ==> s[c][j].0 != hs[i],
    ensures
        entries_wf(reports_effect(s, hs, ts, c)[c], MAX_BLOCKS_PER_CHECKPOINT as nat),
        reports_effect(s, hs, ts, c)[c].len() == if s[c].len() + hs.len()
            <= MAX_BLOCKS_PER_CHECKPOINT {
            s[c].len() + hs.len()
        } else {
            MAX_BLOCKS_PER_CHECKPOINT as nat
        },
        forall|j: int|
            0 <= j < reports_effect(s, hs, ts, c)[c].len() ==> (exists|i: int|
                0 <= i < s[c].len() && s[c][i].0 == #[trigger] reports_effect(s, hs, ts, c)[c][j].0)
                || hs.contains(reports_effect(s, hs, ts, c)[c][j].0),
        forall|other: Checkpoint|
            other != c ==> #[trigger] reports_effect(s, hs, ts, c)[other].len() == s[other].len(),
    decreases hs.len(),
{
    if hs.len() > 0 {
        let n = hs.len() - 1;
        let prefix = hs.drop_last();
        assert(prefix.no_duplicates()) by {
            assert forall|a: int, b: int| 0 <= a < prefix.len() && 0 <= b < prefix.len() && a != b
                implies prefix[a] != prefix[b] by {
                assert(prefix[a] == hs[a] && prefix[b] == hs[b]);
            }
        }
        lemma_reports_grow(s, prefix, ts, c);
        let r = reports_effect(s, prefix, ts, c);
        let h = hs[n];
        lemma_report_puts(r, h, ts[n], c);
        let q = r[c];
        assert forall|j: int| 0 <= j < q.len() implies #[trigger] q[j].0 != h by {
            if exists|i: int| 0 <= i < s[c].len() && s[c][i].0 == q[j].0 {
                let i = choose|i: int| 0 <= i < s[c].len() && s[c][i].0 == q[j].0;
                assert(s[c][i].0 != hs[n]);
            } else {
                assert(prefix.contains(q[j].0));
                let m = choose|m: int| 0 <= m < prefix.len() && prefix[m] == q[j].0;
                assert(hs[m] == q[j].0);
            }
        }
        assert(key_index(q, h) is None);
        lemma_put_wf(q, MAX_BLOCKS_PER_CHECKPOINT as nat, h, ts[n]);
        let res = reports_effect(s, hs, ts, c);
        assert(res == report_effect(r, h, ts[n], c).0);
        let t = if q.len() == MAX_BLOCKS_PER_CHECKPOINT { q.drop_last() } else { q };
        assert(res[c] =~= seq![(h, ts[n])] + t);
        assert forall|j: int| 0 <= j < res[c].len() implies (exists|i: int|
            0 <= i < s[c].len() && s[c][i].0 == #[trigger] res[c][j].0) || hs.contains(res[c][j].0) by {
            if j == 0 {
                assert(hs[n] == res[c][j].0);
            } else {
                assert(res[c][j] == q[j - 1]);
                if prefix.contains(q[j - 1].0) {
                    let m = choose|m: int| 0 <= m < prefix.len() && prefix[m] == q[j - 1].0;
                    assert(hs[m] == q[j - 1].0);
                }
            }
        }
        assert forall|other: Checkpoint| other != c implies #[trigger] res[other].len()
            == s[other].len() by {
            lemma_report_keeps_other_checkpoints(r, h, ts[n], c, other);
        }
    }
}

/// Reporting blocks that are all different, and none of them remembered yet, at one
/// checkpoint: the cache of that checkpoint grows by one block a report until it holds
/// `MAX_BLOCKS_PER_CHECKPOINT` blocks, and the caches of the other checkpoints keep their
/// sizes.
pub proof fn lemma_distinct_reports_fill_up_to_limit(
    s: StartsView,
    hs: Seq<[u8; 32]>,
    ts: Seq<u64>,
    c: Checkpoint,
)
    requires
        entries_wf(s[c], MAX_BLOCKS_PER_CHECKPOINT as nat),
        hs.no_duplicates(),
        forall|i: int| 0 <= i < hs.len() ==> value_of(s[c], #[trigger] hs[i]) is None,
    ensures
        reports_effect(s, hs, ts, c)[c].len() == if s[c].len() + hs.len()
            <= MAX_BLOCKS_PER_CHECKPOINT {
            s[c].len() + hs.len()
        } else {
            MAX_BLOCKS_PER_CHECKPOINT as nat
        },
        forall|other: Checkpoint|
            other != c ==> #[trigger] reports_effect(s, hs, ts, c)[other].len() == s[other].len(),
{
    assert forall|i: int, j: int| 0 <= i < hs.len() && 0 <= j < s[c].len() implies s[c][j].0
        != hs[i] by {
        if s[c][j].0 == hs[i] {
            assert(value_of(s[c], hs[i]) is Some);
        }
    }
    lemma_reports_grow(s, hs, ts, c);
}

impl BlockMetrics {
    /// The caches, or `None` for metrics that keep nothing.
    pub closed spec fn starts(&self) -> Option<StartsView> {
        match self {
            BlockMetrics::Prometheus { starts } => Some(starts.view_map()),
            BlockMetrics::Noop => None,
        }
    }

    pub closed spec fn wf(&self) -> bool {
        match self {
            BlockMetrics::Prometheus { starts } => starts.wf(),
            BlockMetrics::Noop => true,
        }
    }

    /// Never more than `MAX_BLOCKS_PER_CHECKPOINT` blocks are remembered per checkpoint.
    pub proof fn lemma_entries_bounded(&self)
        requires
            self.wf(),
        ensures
            self.starts() matches Some(s) ==> forall|c: Checkpoint|
                #[trigger] s[c].len() <= MAX_BLOCKS_PER_CHECKPOINT,
    {
        if let BlockMetrics::Prometheus { starts } = self {
            starts.lemma_wf();
        }
    }

    /// Metrics keeping times when `enabled`, and nothing otherwise.
    pub fn new(enabled: bool) -> (res: BlockMetrics)
        ensures
            res.wf(),
            enabled ==> (res.starts() matches Some(s) && forall|c: Checkpoint|
                #[trigger] s[c] == Seq::<([u8; 32], u64)>::empty()),
            !enabled ==> res.starts() is None,
    {
        if enabled {
            BlockMetrics::Prometheus { starts: CheckpointStarts::new() }
        } else {
            BlockMetrics::Noop
        }
    }

    /// Metrics that keep nothing.
    pub fn noop() -> (res: BlockMetrics)
        ensures
            res.wf(),
            res.starts() is None,
    {
        BlockMetrics::Noop
    }

    /// Whether the metrics keep nothing.
    pub fn is_noop(&self) -> (res: bool)
        ensures
            res == (self.starts() is None),
    {
        match self {
            BlockMetrics::Noop => true,
            BlockMetrics::Prometheus { .. } => false,
        }
    }

    /// Makes the blocks that were reported at `checkpoint` under `header_hash` be referred to
    /// by `post_hash`, keeping their time.
    pub fn convert_header_hash_to_post_hash(
        &mut self,
        header_hash: BlockHash,
        post_hash: BlockHash,
        checkpoint: Checkpoint,
    )
        requires
            old(self).wf(),
        ensures
            final(self).wf(),
            match old(self).starts() {
                None => final(self).starts() is None,
                Some(s) => final(self).starts() == Some(
                    match value_of(s[checkpoint], header_hash@) {
                        Some(t) => s.insert(
                            checkpoint,
                            entries_after_put(
                                entries_after_pop(s[checkpoint], header_hash@),
                                MAX_BLOCKS_PER_CHECKPOINT as nat,
                                post_hash@,
                                t,
                            ),
                        ),
                        None => s,
                    },
                ),
            },
    {
        match self {
            BlockMetrics::Noop => {},
            BlockMetrics::Prometheus { starts } => {
                if let Some((_, time)) = starts.pop_entry(checkpoint, &header_hash) {
                    starts.push(checkpoint, post_hash, time);
                } else {
                    proof {
                        assert(starts.view_map() =~= old(self).starts()->0);
                    }
                }
            },
        }
    }

    /// Reports block `hash` at `checkpoint_type` at `checkpoint_time`, unless it was reported
    /// at that checkpoint type before (and is still remembered).
    pub fn report_block_if_not_present(
        &mut self,
        hash: BlockHash,
        checkpoint_time: u64,
        checkpoint_type: Checkpoint,
    ) -> (res: Vec<Observation>)
        requires
            old(self).wf(),
        ensures
            final(self).wf(),
            match old(self).starts() {
                None => final(self).starts() is None && res@.len() == 0,
                Some(s) => if key_index(s[checkpoint_type], hash@) is Some {
                    final(self).starts() == Some(s) && res@.len() == 0
                } else {
                    final(self).starts() == Some(
                        report_effect(s, hash@, checkpoint_time, checkpoint_type).0,
                    ) && res@ == report_effect(s, hash@, checkpoint_time, checkpoint_type).1
                },
            },
    {
        let present = match self {
            BlockMetrics::Noop => return Vec::new(),
            BlockMetrics::Prometheus { starts } => starts.contains(checkpoint_type, &hash),
        };
        if !present {
            self.report_block(hash, checkpoint_time, checkpoint_type)
        } else {
            Vec::new()
        }
    }

    /// Reports that block `hash` reached `checkpoint_type` at `checkpoint_time`, and returns
    /// the durations to record.
    pub fn report_block(&mut self, hash: BlockHash, checkpoint_time: u64, checkpoint_type: Checkpoint) -> (res: Vec<
        Observation,
    >)
        requires
            old(self).wf(),
        ensures
            final(self).wf(),
            match old(self).starts() {
                None => final(self).starts() is None && res@.len() == 0,
                Some(s) => final(self).starts() == Some(
                    report_effect(s, hash@, checkpoint_time, checkpoint_type).0,
                ) && res@ == report_effect(s, hash@, checkpoint_time, checkpoint_type).1,
            },
    {
        let starts = match self {
            BlockMetrics::Noop => return Vec::new(),
            BlockMetrics::Prometheus { starts } => starts,
        };
        let mut observations: Vec<Observation> = Vec::new();
        starts.put(checkpoint_type, hash, checkpoint_time);
        if let Some(prev_checkpoint_type) = checkpoint_type.prev() {
            if let Some(start) = starts.get(prev_checkpoint_type, &hash) {
                let duration = if checkpoint_time >= start {
                    checkpoint_time - start
                } else {
                    0
                };
                observations.push(
                    Observation {
                        kind: ObservationKind::TimeSincePrevCheckpoint(checkpoint_type),
                        duration,
                    },
                );
            }
        }
        let ghost o1 = observations@;
        if checkpoint_type == Checkpoint::Finalized {
            if let Some(start) = starts.get(Checkpoint::Imported, &hash) {
                let duration = if checkpoint_time >= start {
                    checkpoint_time - start
                } else {
                    0
                };
                observations.push(
                    Observation { kind: ObservationKind::ImportedToFinalized, duration },
                );
            }
        }
        proof {
            let e = report_effect(old(self).starts()->0, hash@, checkpoint_time, checkpoint_type);
            assert(observations@ =~= e.1);
            assert(starts.view_map() =~= e.0);
        }
        observations
    }

    /// The number of blocks remembered at `checkpoint`.
    pub fn starts_len(&self, checkpoint: Checkpoint) -> (res: usize)
        ensures
            match self.starts() {
                None => res == 0,
                Some(s) => res == s[checkpoint].len(),
            },
    {
        match self {
            BlockMetrics::Noop => 0,
            BlockMetrics::Prometheus { starts } => starts.len(checkpoint),
        }
    }

    /// The blocks remembered at `checkpoint` with their times, most recent first.
    pub fn starts_entries(&self, checkpoint: Checkpoint) -> (res: Vec<(BlockHash, u64)>)
        ensures
            match self.starts() {
                None => res@.len() == 0,
                Some(s) => res@.map_values(|e: (BlockHash, u64)| (e.0@, e.1)) == s[checkpoint],
            },
    {
        match self {
            BlockMetrics::Noop => Vec::new(),
            BlockMetrics::Prometheus { starts } => starts.entries(checkpoint),
        }
    }
}

} // verus!
