//! Where validators could be reached in which session: a cache of the most recent addressing
//! information of each validator, and the updater that fills it.
use lru::LruCache;
use vstd::prelude::*;

use crate::lru_cache::{
    address_cache_len, address_cache_new, address_cache_peek, address_cache_put, address_capacity,
    address_entries, entries_after_put, entries_wf, lemma_put_wf, value_of,
};
use crate::primitives::{AccountId, NodeIndex, SessionId};

verus! {

/// Network details for a given validator in a given session.
#[derive(Clone, Debug)]
pub struct ValidatorAddressingInfo {
    /// Session to which given information applies.
    pub session: SessionId,
    /// Network level address of the validator, i.e. its IP address on the validator network.
    pub network_level_address: String,
    /// PeerId of the validator used in the validator network.
    pub validator_network_peer_id: String,
}

impl View for ValidatorAddressingInfo {
    type V = (u32, Seq<char>, Seq<char>);

    open spec fn view(&self) -> (u32, Seq<char>, Seq<char>) {
        (self.session.0, self.network_level_address@, self.validator_network_peer_id@)
    }
}

/// How many validators the cache remembers.
pub const VALIDATOR_ADDRESS_CACHE_SIZE: usize = 1000;

/// Stores the most recent information about validator addresses, for at most
/// `VALIDATOR_ADDRESS_CACHE_SIZE` validators (the least recently updated ones are forgotten).
pub struct ValidatorAddressCache {
    data: LruCache<AccountId, ValidatorAddressingInfo>,
}

impl ValidatorAddressCache {
    /// The validators with their information, the most recently updated first.
    pub closed spec fn entries(&self) -> Seq<([u8; 32], (u32, Seq<char>, Seq<char>))> {
        address_entries(self.data)
    }

    pub closed spec fn wf(&self) -> bool {
        &&& address_capacity(self.data) == VALIDATOR_ADDRESS_CACHE_SIZE
        &&& entries_wf(self.entries(), VALIDATOR_ADDRESS_CACHE_SIZE as nat)
    }

    /// An empty cache.
    pub fn new() -> (res: ValidatorAddressCache)
        ensures
            res.wf(),
            res.entries() == Seq::<([u8; 32], (u32, Seq<char>, Seq<char>))>::empty(),
    {
        ValidatorAddressCache { data: address_cache_new(VALIDATOR_ADDRESS_CACHE_SIZE) }
    }

    /// Records `info` for `validator_stash`, as its most recent information.
    pub fn insert(&mut self, validator_stash: AccountId, info: ValidatorAddressingInfo)
        requires
            old(self).wf(),
        ensures
            final(self).wf(),
            final(self).entries() == entries_after_put(
                old(self).entries(),
                VALIDATOR_ADDRESS_CACHE_SIZE as nat,
                validator_stash@,
                info@,
            ),
    {
        proof {
            lemma_put_wf(
                old(self).entries(),
                VALIDATOR_ADDRESS_CACHE_SIZE as nat,
                validator_stash@,
                info@,
            );
        }
        address_cache_put(&mut self.data, validator_stash, info);
    }

    /// The information recorded for `validator_stash`, if any.
    pub fn get(&self, validator_stash: &AccountId) -> (res: Option<ValidatorAddressingInfo>)
        ensures
            match res {
                Some(info) => value_of(self.entries(), validator_stash@) == Some(info@),
                None => value_of(self.entries(), validator_stash@) is None,
            },
    {
        address_cache_peek(&self.data, validator_stash)
    }

    /// The number of validators remembered.
    pub fn len(&self) -> (res: usize)
        ensures
            res == self.entries().len(),
    {
        address_cache_len(&self.data)
    }
}

impl Default for ValidatorAddressCache {
    fn default() -> (res: ValidatorAddressCache)
        ensures
            res.wf(),
            res.entries() == Seq::<([u8; 32], (u32, Seq<char>, Seq<char>))>::empty(),
    {
        ValidatorAddressCache::new()
    }
}

/// Finds the account of a validator in a session.
pub trait ValidatorIndexToAccountIdConverter {
    fn account(&self, session: SessionId, validator_index: NodeIndex) -> Option<AccountId>;
}

/// Records where validators could be reached.
pub trait ValidatorAddressCacheUpdater {
    /// The updater's state is consistent.
    spec fn inv(&self) -> bool;

    /// In session `session_info.session`, validator `validator_index` was using the addresses
    /// in `session_info`; a session and an index identify the validator uniquely.
    fn update(&mut self, validator_index: NodeIndex, session_info: ValidatorAddressingInfo)
        requires
            old(self).inv(),
        ensures
            final(self).inv(),
    ;
}

/// Updates a validator address cache, or does nothing when there is none.
pub enum ValidatorAddressCacheUpdaterImpl<C> {
    Noop,
    BackendBased { validator_address_cache: ValidatorAddressCache, key_owner_info_provider: C },
}

impl<C> ValidatorAddressCacheUpdaterImpl<C> {
    /// The cache's entries, or `None` for an updater that does nothing.
    pub closed spec fn cache_entries(&self) -> Option<Seq<([u8; 32], (u32, Seq<char>, Seq<char>))>> {
        match self {
            ValidatorAddressCacheUpdaterImpl::Noop => None,
            ValidatorAddressCacheUpdaterImpl::BackendBased { validator_address_cache, .. } => Some(
                validator_address_cache.entries(),
            ),
        }
    }

    /// The converter that finds validators' accounts, or `None` for an updater that does
    /// nothing.
    pub closed spec fn converter(&self) -> Option<C> {
        match self {
            ValidatorAddressCacheUpdaterImpl::Noop => None,
            ValidatorAddressCacheUpdaterImpl::BackendBased { key_owner_info_provider, .. } => Some(
                *key_owner_info_provider,
            ),
        }
    }

    pub closed spec fn wf(&self) -> bool {
        match self {
            ValidatorAddressCacheUpdaterImpl::Noop => true,
            ValidatorAddressCacheUpdaterImpl::BackendBased { validator_address_cache, .. } => validator_address_cache.wf(),
        }
    }

    /// Records `info` for the validator with account `account`, when its account is known.
    pub fn update_account(&mut self, account: Option<AccountId>, info: ValidatorAddressingInfo)
        requires
            old(self).wf(),
        ensures
            final(self).wf(),
            final(self).converter() == old(self).converter(),
            match (old(self).cache_entries(), account) {
                (Some(e), Some(a)) => final(self).cache_entries() == Some(
                    entries_after_put(e, VALIDATOR_ADDRESS_CACHE_SIZE as nat, a@, info@),
                ),
                _ => final(self).cache_entries() == old(self).cache_entries(),
            },
    {
        match self {
            ValidatorAddressCacheUpdaterImpl::Noop => {},
            ValidatorAddressCacheUpdaterImpl::BackendBased { validator_address_cache, .. } => {
                if let Some(validator) = account {
                    validator_address_cache.insert(validator, info);
                }
            },
        }
    }
}

impl<C: ValidatorIndexToAccountIdConverter> ValidatorAddressCacheUpdater for ValidatorAddressCacheUpdaterImpl<C> {
    open spec fn inv(&self) -> bool {
        self.wf()
    }

    /// Looks the validator's account up and records the information under it, when found.
    fn update(&mut self, validator_index: NodeIndex, session_info: ValidatorAddressingInfo)
        ensures
            final(self).converter() == old(self).converter(),
            match (old(self).cache_entries(), old(self).converter()) {
                (Some(e), Some(c)) => exists|account: Option<AccountId>|
                    #![trigger call_ensures(C::account, (&c, session_info.session, validator_index), account)]
                    call_ensures(C::account, (&c, session_info.session, validator_index), account)
                        && final(self).cache_entries() == Some(
                        match account {
                            Some(a) => entries_after_put(
                                e,
                                VALIDATOR_ADDRESS_CACHE_SIZE as nat,
                                a@,
                                session_info@,
                            ),
                            None => e,
                        },
                    ),
                _ => final(self).cache_entries() == old(self).cache_entries(),
            },
    {
        let account = match self {
            ValidatorAddressCacheUpdaterImpl::Noop => None,
            ValidatorAddressCacheUpdaterImpl::BackendBased { key_owner_info_provider, .. } => key_owner_info_provider.account(
                session_info.session,
                validator_index,
            ),
        };
        self.update_account(account, session_info);
    }
}

/// An updater of `validator_address_cache`, when there is one; otherwise one that does
/// nothing.
pub fn validator_address_cache_updater<C>(
    validator_address_cache: Option<ValidatorAddressCache>,
    key_owner_info_provider: C,
) -> (res: ValidatorAddressCacheUpdaterImpl<C>)
    requires
        validator_address_cache matches Some(c) ==> c.wf(),
    ensures
        res.wf(),
        match validator_address_cache {
            Some(c) => res.cache_entries() == Some(c.entries()) && res.converter() == Some(
                key_owner_info_provider,
            ),
            None => res.cache_entries() is None && res.converter() is None,
        },
{
    match validator_address_cache {
        Some(validator_address_cache) => ValidatorAddressCacheUpdaterImpl::BackendBased {
            validator_address_cache,
            key_owner_info_provider,
        },
        None => ValidatorAddressCacheUpdaterImpl::Noop,
    }
}

} // verus!
