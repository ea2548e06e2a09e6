//! The least-recently-used caches of the `lru` crate: the block timestamps of the metrics and
//! the validator addresses, and what their operations do to the entries.
use std::num::NonZeroUsize;

use lru::LruCache;
use vstd::prelude::*;

use crate::network::address_cache::ValidatorAddressingInfo;
use crate::primitives::{AccountId, BlockHash};

verus! {

#[verifier::external_type_specification]
#[verifier::external_body]
#[verifier::reject_recursive_types(K)]
#[verifier::reject_recursive_types(V)]
#[verifier::reject_recursive_types(S)]
pub struct ExLruCache<K, V, S>(LruCache<K, V, S>);

#[verifier::external_type_specification]
#[verifier::external_body]
pub struct ExLruDefaultHasher(lru::DefaultHasher);

/// The entries of a cache, from the most recently used to the least recently used.
pub uninterp spec fn lru_entries(c: LruCache<BlockHash, u64>) -> Seq<([u8; 32], u64)>;

/// The number of entries a cache holds at most.
pub uninterp spec fn lru_capacity(c: LruCache<BlockHash, u64>) -> nat;

/// The position of the entry for key `k`, if there is one.
pub open spec fn key_index<V>(s: Seq<([u8; 32], V)>, k: [u8; 32]) -> Option<int> {
    if exists|i: int| 0 <= i < s.len() && #[trigger] s[i].0 == k {
        Some(choose|i: int| 0 <= i < s.len() && #[trigger] s[i].0 == k)
    } else {
        None
    }
}

/// No key occurs twice, and there are no more entries than the capacity allows.
pub open spec fn entries_wf<V>(s: Seq<([u8; 32], V)>, cap: nat) -> bool {
    &&& 1 <= cap
    &&& s.len() <= cap
    &&& forall|i: int, j: int| 0 <= i < j < s.len() ==> #[trigger] s[i].0 != #[trigger] s[j].0
}

/// The entries after `k` is put with value `v`: the entry moves to the front with its new
/// value; a new key goes to the front, evicting the least recently used entry when full.
pub open spec fn entries_after_put<V>(s: Seq<([u8; 32], V)>, cap: nat, k: [u8; 32], v: V) -> Seq<
    ([u8; 32], V),
> {
    match key_index(s, k) {
        Some(i) => seq![(k, v)] + s.remove(i),
        None => if s.len() == cap {
            seq![(k, v)] + s.drop_last()
        } else {
            seq![(k, v)] + s
        },
    }
}

/// The entries after `k` is looked up: a present entry moves to the front.
pub open spec fn entries_after_get<V>(s: Seq<([u8; 32], V)>, k: [u8; 32]) -> Seq<([u8; 32], V)> {
    match key_index(s, k) {
        Some(i) => seq![s[i]] + s.remove(i),
        None => s,
    }
}

/// The entries after the entry for `k` is taken out.
pub open spec fn entries_after_pop<V>(s: Seq<([u8; 32], V)>, k: [u8; 32]) -> Seq<([u8; 32], V)> {
    match key_index(s, k) {
        Some(i) => s.remove(i),
        None => s,
    }
}

/// The value stored under `k`.
pub open spec fn value_of<V>(s: Seq<([u8; 32], V)>, k: [u8; 32]) -> Option<V> {
    match key_index(s, k) {
        Some(i) => Some(s[i].1),
        None => None,
    }
}

proof fn lemma_key_index<V>(s: Seq<([u8; 32], V)>, k: [u8; 32])
    ensures
        match key_index(s, k) {
            Some(i) => 0 <= i < s.len() && s[i].0 == k,
            None => forall|j: int| 0 <= j < s.len() ==> s[j].0 != k,
        },
{
}

/// Putting keeps the entries well formed.
pub proof fn lemma_put_wf<V>(s: Seq<([u8; 32], V)>, cap: nat, k: [u8; 32], v: V)
    requires
        entries_wf(s, cap),
    ensures
        entries_wf(entries_after_put(s, cap, k, v), cap),
{
    lemma_key_index(s, k);
    let r = entries_after_put(s, cap, k, v);
    match key_index(s, k) {
        Some(i) => {
            let t = s.remove(i);
            assert forall|a: int, b: int| 0 <= a < b < r.len() implies #[trigger] r[a].0 != #[trigger] r[b].0 by {
                let a2 = if a - 1 < i { a - 1 } else { a };
                let b2 = if b - 1 < i { b - 1 } else { b };
                if a == 0 {
                    assert(r[b] == s[b2]);
                    assert(s[i].0 != s[b2].0);
                } else {
                    assert(r[a] == s[a2]);
                    assert(r[b] == s[b2]);
                }
            }
        },
        None => {
            let t = if s.len() == cap { s.drop_last() } else { s };
            assert(r =~= seq![(k, v)] + t);
            assert forall|a: int, b: int| 0 <= a < b < r.len() implies #[trigger] r[a].0 != #[trigger] r[b].0 by {
                if a == 0 {
                    assert(r[b] == s[b - 1]);
                } else {
                    assert(r[a] == s[a - 1]);
                    assert(r[b] == s[b - 1]);
                }
            }
        },
    }
}

/// Looking up keeps the entries well formed.
pub proof fn lemma_get_wf<V>(s: Seq<([u8; 32], V)>, cap: nat, k: [u8; 32])
    requires
        entries_wf(s, cap),
    ensures
        entries_wf(entries_after_get(s, k), cap),
{
    lemma_key_index(s, k);
    let r = entries_after_get(s, k);
    if let Some(i) = key_index(s, k) {
        assert forall|a: int, b: int| 0 <= a < b < r.len() implies #[trigger] r[a].0 != #[trigger] r[b].0 by {
            let a2 = if a - 1 < i { a - 1 } else { a };
            let b2 = if b - 1 < i { b - 1 } else { b };
            if a == 0 {
                assert(r[b] == s[b2]);
                assert(s[i].0 != s[b2].0);
            } else {
                assert(r[a] == s[a2]);
                assert(r[b] == s[b2]);
            }
        }
    }
}

/// Taking an entry out keeps the entries well formed.
pub proof fn lemma_pop_wf<V>(s: Seq<([u8; 32], V)>, cap: nat, k: [u8; 32])
    requires
        entries_wf(s, cap),
    ensures
        entries_wf(entries_after_pop(s, k), cap),
{
    lemma_key_index(s, k);
    let r = entries_after_pop(s, k);
    if let Some(i) = key_index(s, k) {
        assert forall|a: int, b: int| 0 <= a < b < r.len() implies #[trigger] r[a].0 != #[trigger] r[b].0 by {
            let a2 = if a < i { a } else { a + 1 };
            let b2 = if b < i { b } else { b + 1 };
            assert(r[a] == s[a2]);
            assert(r[b] == s[b2]);
        }
    }
}

/// `LruCache::new` of the `lru` crate: an empty cache holding at most `cap` entries.
#[verifier::external_body]
pub(crate) fn lru_new(cap: usize) -> (res: LruCache<BlockHash, u64>)
    requires
        cap > 0,
    ensures
        lru_entries(res) == Seq::<([u8; 32], u64)>::empty(),
        lru_capacity(res) == cap,
{
    LruCache::new(NonZeroUsize::new(cap).unwrap())
}

/// `LruCache::put` of the `lru` crate: stores `v` under `k` as the most recently used entry,
/// evicting the least recently used entry when a new key arrives at a full cache.
#[verifier::external_body]
pub(crate) fn lru_put(c: &mut LruCache<BlockHash, u64>, k: BlockHash, v: u64)
    requires
        entries_wf(lru_entries(*old(c)), lru_capacity(*old(c))),
    ensures
        lru_entries(*final(c)) == entries_after_put(lru_entries(*old(c)), lru_capacity(*old(c)), k@, v),
        lru_capacity(*final(c)) == lru_capacity(*old(c)),
{
    c.put(k, v);
}

/// `LruCache::push` of the `lru` crate: does to the entries what `put` does.
#[verifier::external_body]
pub(crate) fn lru_push(c: &mut LruCache<BlockHash, u64>, k: BlockHash, v: u64)
    requires
        entries_wf(lru_entries(*old(c)), lru_capacity(*old(c))),
    ensures
        lru_entries(*final(c)) == entries_after_put(lru_entries(*old(c)), lru_capacity(*old(c)), k@, v),
        lru_capacity(*final(c)) == lru_capacity(*old(c)),
{
    c.push(k, v);
}

/// `LruCache::get` of the `lru` crate: the value under `k`, whose entry becomes the most
/// recently used.
#[verifier::external_body]
pub(crate) fn lru_get(c: &mut LruCache<BlockHash, u64>, k: &BlockHash) -> (res: Option<u64>)
    requires
        entries_wf(lru_entries(*old(c)), lru_capacity(*old(c))),
    ensures
        res == value_of(lru_entries(*old(c)), k@),
        lru_entries(*final(c)) == entries_after_get(lru_entries(*old(c)), k@),
        lru_capacity(*final(c)) == lru_capacity(*old(c)),
{
    c.get(k).copied()
}

/// `LruCache::contains` of the `lru` crate: whether there is an entry for `k`; the order of
/// the entries does not change.
#[verifier::external_body]
pub(crate) fn lru_contains(c: &LruCache<BlockHash, u64>, k: &BlockHash) -> (res: bool)
    ensures
        res == (key_index(lru_entries(*c), k@) is Some),
{
    c.contains(k)
}

/// `LruCache::pop_entry` of the `lru` crate: takes the entry for `k` out.
#[verifier::external_body]
pub(crate) fn lru_pop_entry(c: &mut LruCache<BlockHash, u64>, k: &BlockHash) -> (res: Option<(BlockHash, u64)>)
    requires
        entries_wf(lru_entries(*old(c)), lru_capacity(*old(c))),
    ensures
        match res {
            Some((key, v)) => key@ == k@ && value_of(lru_entries(*old(c)), k@) == Some(v),
            None => value_of(lru_entries(*old(c)), k@) is None,
        },
        lru_entries(*final(c)) == entries_after_pop(lru_entries(*old(c)), k@),
        lru_capacity(*final(c)) == lru_capacity(*old(c)),
{
    c.pop_entry(k)
}

/// `LruCache::len` of the `lru` crate: the number of entries.
#[verifier::external_body]
pub(crate) fn lru_len(c: &LruCache<BlockHash, u64>) -> (res: usize)
    ensures
        res == lru_entries(*c).len(),
{
    c.len()
}

/// `LruCache::iter` of the `lru` crate, collected: the entries from the most recently used.
#[verifier::external_body]
pub(crate) fn lru_to_vec(c: &LruCache<BlockHash, u64>) -> (res: Vec<(BlockHash, u64)>)
    ensures
        res@.map_values(|e: (BlockHash, u64)| (e.0@, e.1)) == lru_entries(*c),
{
    c.iter().map(|(k, v)| (*k, *v)).collect()
}

/// The validators in an address cache with their information, from the most recently
/// updated to the least recently updated.
pub uninterp spec fn address_entries(c: LruCache<AccountId, ValidatorAddressingInfo>) -> Seq<
    ([u8; 32], (u32, Seq<char>, Seq<char>)),
>;

/// The number of validators an address cache holds at most.
pub uninterp spec fn address_capacity(c: LruCache<AccountId, ValidatorAddressingInfo>) -> nat;

/// `LruCache::new` of the `lru` crate, for validator addresses: an empty cache holding at
/// most `cap` entries.
#[verifier::external_body]
pub(crate) fn address_cache_new(cap: usize) -> (res: LruCache<AccountId, ValidatorAddressingInfo>)
    requires
        cap > 0,
    ensures
        address_entries(res) == Seq::<([u8; 32], (u32, Seq<char>, Seq<char>))>::empty(),
        address_capacity(res) == cap,
{
    LruCache::new(NonZeroUsize::new(cap).unwrap())
}

/// `LruCache::put` of the `lru` crate, for validator addresses: stores `v` under `k` as the
/// most recently used entry, evicting the least recently used entry when a new key arrives at
/// a full cache.
#[verifier::external_body]
pub(crate) fn address_cache_put(
    c: &mut LruCache<AccountId, ValidatorAddressingInfo>,
    k: AccountId,
    v: ValidatorAddressingInfo,
)
    requires
        entries_wf(address_entries(*old(c)), address_capacity(*old(c))),
    ensures
        address_entries(*final(c)) == entries_after_put(
            address_entries(*old(c)),
            address_capacity(*old(c)),
            k@,
            v@,
        ),
        address_capacity(*final(c)) == address_capacity(*old(c)),
{
    c.put(k, v);
}

/// `LruCache::peek` of the `lru` crate, for validator addresses: a copy of the value under
/// `k`, leaving the order of the entries as it is.
#[verifier::external_body]
pub(crate) fn address_cache_peek(
    c: &LruCache<AccountId, ValidatorAddressingInfo>,
    k: &AccountId,
) -> (res: Option<ValidatorAddressingInfo>)
    ensures
        match res {
            Some(v) => value_of(address_entries(*c), k@) == Some(v@),
            None => value_of(address_entries(*c), k@) is None,
        },
{
    c.peek(k).cloned()
}

/// `LruCache::len` of the `lru` crate, for validator addresses: the number of entries.
#[verifier::external_body]
pub(crate) fn address_cache_len(c: &LruCache<AccountId, ValidatorAddressingInfo>) -> (res: usize)
    ensures
        res == address_entries(*c).len(),
{
    c.len()
}

} // verus!
