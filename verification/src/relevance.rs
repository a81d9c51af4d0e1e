//! The relevance oracle: a batch membership check over the set of tracked
//! token-account owners, emulated locally by an in-memory owner list.
//!
//! The oracle is read-only for this pipeline; a caller that cannot reach a
//! real backend treats every owner as not relevant (fail-closed).

use vstd::prelude::*;

use crate::account::AccountId;
use crate::resolver::key_views;
use crate::resolver::keys_contain;

verus! {

/// The simulated storage behind the emulator: the set of relevant owners,
/// absent until populated.
pub struct RelevantAccountCache {
    pub token_account_owners: Option<Vec<AccountId>>,
}

impl RelevantAccountCache {
    fn new() -> (r: RelevantAccountCache)
        ensures
            r.token_account_owners is None,
    {
        RelevantAccountCache { token_account_owners: None }
    }
}

impl Default for RelevantAccountCache {
    fn default() -> (r: RelevantAccountCache)
        ensures
            r.token_account_owners is None,
    {
        RelevantAccountCache::new()
    }
}

/// Whether the cache holds `owner` as relevant: false whenever the cache
/// has not been populated.
pub open spec fn cache_contains(cache: &RelevantAccountCache, owner: Seq<u8>) -> bool {
    match cache.token_account_owners {
        Some(list) => key_views(list@).contains(owner),
        None => false,
    }
}

/// An error reported by the relevance oracle; the emulator itself never
/// produces one, but callers of the oracle interface must fail closed on it.
#[derive(Clone, Copy, Debug, PartialEq, Eq, Structural)]
pub struct OracleError {}

/// A local, in-memory stand-in for the relevance-cache backend.
pub struct LocalRedisEmulator {
    pub relevant_account_cache: RelevantAccountCache,
}

/// Whether the emulator considers `owner` relevant.
pub open spec fn oracle_flag(client: &LocalRedisEmulator, owner: Seq<u8>) -> bool {
    cache_contains(&client.relevant_account_cache, owner)
}

impl LocalRedisEmulator {
    /// A fresh emulator with an unpopulated cache: every membership check
    /// answers "not relevant".
    pub fn new() -> (r: LocalRedisEmulator)
        ensures
            r.relevant_account_cache.token_account_owners is None,
            forall|o: Seq<u8>| !oracle_flag(&r, o),
    {
        LocalRedisEmulator { relevant_account_cache: RelevantAccountCache::new() }
    }

    /// Replaces the set of relevant owners.
    pub fn set_relevant_owners(&mut self, owners: Vec<AccountId>)
        ensures
            final(self).relevant_account_cache.token_account_owners == Some(owners),
            forall|o: Seq<u8>| #[trigger] oracle_flag(final(self), o) == key_views(
                owners@,
            ).contains(o),
    {
        self.relevant_account_cache.token_account_owners = Some(owners);
    }

    /// Answers one membership flag per queried owner, position-aligned:
    /// `true` exactly when the owner is in the populated cache. A single
    /// batched call stands in for one oracle round trip per transaction.
    pub fn batch_check_token_account_owners(&self, owners: &Vec<AccountId>) -> (r: Result<
        Vec<bool>,
        OracleError,
    >)
        ensures
            r matches Ok(flags) && flags@.len() == owners@.len() && (forall|i: int|
                0 <= i < owners@.len() ==> flags@[i] == oracle_flag(self, owners@[i]@)),
    {
        let mut flags: Vec<bool> = Vec::new();
        let n = owners.len();
        match &self.relevant_account_cache.token_account_owners {
            Some(list) => {
                let mut i: usize = 0;
                while i < n
                    invariant
                        i <= n,
                        n == owners@.len(),
                        flags@.len() == i,
                        self.relevant_account_cache.token_account_owners == Some(*list),
                        forall|j: int|
                            0 <= j < i ==> flags@[j] == oracle_flag(self, owners@[j]@),
                    decreases n - i,
                {
                    let hit = keys_contain(list.as_slice(), &owners[i]);
                    flags.push(hit);
                    i += 1;
                }
            },
            None => {
                let mut i: usize = 0;
                while i < n
                    invariant
                        i <= n,
                        n == owners@.len(),
                        flags@.len() == i,
                        self.relevant_account_cache.token_account_owners is None,
                        forall|j: int|
                            0 <= j < i ==> flags@[j] == oracle_flag(self, owners@[j]@),
                    decreases n - i,
                {
                    flags.push(false);
                    i += 1;
                }
            },
        }
        Ok(flags)
    }
}

/// The alias the rest of the pipeline uses for the oracle handle.
pub type SmartAccountRedisClient = LocalRedisEmulator;

} // verus!
