//! The per-transaction result object: the transaction itself, its identity
//! and position, and the relevance-filtered change mapping.

use vstd::prelude::*;

use crate::account::SignatureId;
use crate::change_map::ChangeMap;
use crate::transaction::UnifiedTransaction;

verus! {

/// The aggregated result of parsing one transaction. Created empty, bound
/// to its transaction, populated by parser output, and handed downstream
/// only when it holds at least one change.
pub struct QueueEntry {
    pub signature: SignatureId,
    pub network: i32,
    pub transaction: UnifiedTransaction,
    pub slot: i32,
    pub block_time: i64,
    pub token_account_changes: ChangeMap,
}

impl Default for QueueEntry {
    /// An empty entry bound to an empty transaction, mostly used for
    /// testing; the signature is zeroed.
    fn default() -> (r: QueueEntry)
        ensures
            r.network == 0,
            r.slot == 0,
            r.block_time == 0,
            r.token_account_changes.wf(),
            r.token_account_changes.spec_is_empty(),
    {
        QueueEntry {
            signature: SignatureId::default(),
            network: 0,
            transaction: UnifiedTransaction::default(),
            slot: 0,
            block_time: 0,
            token_account_changes: ChangeMap::new(),
        }
    }
}

impl QueueEntry {
    /// A fresh, empty entry bound to one transaction; the slot is taken
    /// from the transaction, truncated to the stored width.
    pub fn new(network: i32, signature: SignatureId, transaction: UnifiedTransaction) -> (r:
        QueueEntry)
        ensures
            r.network == network,
            r.signature == signature,
            r.transaction == transaction,
            r.slot == transaction.slot as i32,
            r.block_time == 0,
            r.token_account_changes.wf(),
            r.token_account_changes.spec_is_empty(),
            forall|k: Seq<u8>| #[trigger] r.token_account_changes.spec_get(k) is None,
    {
        let slot: i32 = #[verifier::truncate] (transaction.slot as i32);
        QueueEntry {
            signature,
            network,
            transaction,
            slot,
            block_time: 0,
            token_account_changes: ChangeMap::new(),
        }
    }

    /// Whether any change survived parsing and filtering; entries for which
    /// this is false are discarded rather than forwarded.
    pub fn contains_changes(&self) -> (r: bool)
        ensures
            r == !self.token_account_changes.spec_is_empty(),
    {
        !self.token_account_changes.is_empty()
    }
}

} // verus!
