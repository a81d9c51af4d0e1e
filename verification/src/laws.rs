//! The library's stated laws: properties that hold of the pipeline as a
//! whole, proved from the specifications the components export.

use vstd::prelude::*;

use crate::account::pubkey_base58_of;
use crate::change_map::ChangeMap;
use crate::decimal::dec_str;
use crate::grouping::bucket_upto;
use crate::grouping::buckets_spec;
use crate::relevance::LocalRedisEmulator;
use crate::resolver::account_keys_spec;
use crate::resolver::flattened_spec;
use crate::simple_parser::simple_outcome_at;
use crate::token_accounts::ChangeView;
use crate::token_parser::candidate_change;
use crate::token_parser::filtered_change;
use crate::token_parser::first_balance_for;
use crate::token_parser::ix_skipped;
use crate::token_parser::snapshot_amount;
use crate::transaction::InstructionView;
use crate::transaction::TokenBalanceView;
use crate::transaction::UnifiedTransaction;

verus! {

/// A transaction with an absent message resolves to an empty account-key
/// list, an empty flattened instruction sequence, and no program bucket at
/// all.
pub proof fn law_absent_message_resolves_empty(tx: &UnifiedTransaction)
    requires
        tx.transaction.message is None,
    ensures
        account_keys_spec(tx).len() == 0,
        flattened_spec(tx).len() == 0,
        forall|k: Seq<u8>| #[trigger] buckets_spec(tx, k) is None,
{
    assert forall|k: Seq<u8>| #[trigger] buckets_spec(tx, k) is None by {
        assert(bucket_upto(
            flattened_spec(tx),
            crate::resolver::key_views(account_keys_spec(tx)),
            k,
            flattened_spec(tx).len() as int,
        ).len() == 0);
    }
}

/// A transaction with an absent message yields no change at any address,
/// whatever the network and oracle state.
pub proof fn law_absent_message_no_result(
    tx: &UnifiedTransaction,
    network: i32,
    client: &LocalRedisEmulator,
    k: Seq<u8>,
)
    requires
        tx.transaction.message is None,
    ensures
        simple_outcome_at(tx, network, client, k) is None,
{
    law_absent_message_resolves_empty(tx);
}

/// A transaction with no token-program bucket yields no change at any
/// address, whatever the network and oracle state.
pub proof fn law_no_token_instructions_no_result(
    tx: &UnifiedTransaction,
    network: i32,
    client: &LocalRedisEmulator,
    k: Seq<u8>,
)
    requires
        buckets_spec(tx, crate::token_parser::token_program_key()) is None,
    ensures
        simple_outcome_at(tx, network, client, k) is None,
{
}

/// When a post-balance snapshot exists for an instruction's token-account
/// index, the produced change takes amount, decimals, display amount,
/// owner and mint from the snapshot, not from the instruction's raw
/// account references.
pub proof fn law_snapshot_values(
    ix: InstructionView,
    keys: Seq<Seq<u8>>,
    balances: Seq<TokenBalanceView>,
    network: i32,
    sig: Seq<u8>,
    slot: i64,
    b: TokenBalanceView,
)
    requires
        !ix_skipped(ix, keys),
        first_balance_for(balances, ix.accounts[0] as u32) == Some(b),
    ensures
        ({
            let c = candidate_change(ix, keys, balances, network, sig, slot);
            &&& c.amount == dec_str(snapshot_amount(b).amount as nat)
            &&& c.decimals == snapshot_amount(b).decimals as i32
            &&& c.ui_amount == snapshot_amount(b).ui_amount_string
            &&& c.owner == pubkey_base58_of(b.owner)
            &&& c.mint == pubkey_base58_of(b.mint)
            &&& c.address == pubkey_base58_of(keys[ix.accounts[0] as int])
        }),
{
}

/// When no snapshot matches an instruction's token-account index, the
/// produced change has a zero amount, zero decimals, display amount "0",
/// and both owner and mint equal to the second referenced account.
pub proof fn law_no_snapshot_defaults(
    ix: InstructionView,
    keys: Seq<Seq<u8>>,
    balances: Seq<TokenBalanceView>,
    network: i32,
    sig: Seq<u8>,
    slot: i64,
)
    requires
        !ix_skipped(ix, keys),
        first_balance_for(balances, ix.accounts[0] as u32) is None,
    ensures
        ({
            let c = candidate_change(ix, keys, balances, network, sig, slot);
            &&& c.amount == seq!['0']
            &&& c.decimals == 0
            &&& c.ui_amount == seq!['0']
            &&& c.owner == pubkey_base58_of(keys[ix.accounts[1] as int])
            &&& c.mint == pubkey_base58_of(keys[ix.accounts[1] as int])
        }),
{
    assert(dec_str(0) =~= seq!['0']);
}

/// Re-running the pipeline on the same transaction against the same oracle
/// state yields the same change mapping: any two results that meet the
/// orchestrator's contract agree at every address.
pub proof fn law_idempotent(
    m1: ChangeMap,
    m2: ChangeMap,
    tx: &UnifiedTransaction,
    network: i32,
    client: &LocalRedisEmulator,
)
    requires
        forall|k: Seq<u8>|
            #[trigger] m1.spec_get(k) == simple_outcome_at(tx, network, client, k),
        forall|k: Seq<u8>|
            #[trigger] m2.spec_get(k) == simple_outcome_at(tx, network, client, k),
    ensures
        forall|k: Seq<u8>| #[trigger] m1.spec_get(k) == m2.spec_get(k),
{
}

/// Fail-closed: with no usable relevance answer (the reading of a failed
/// oracle call), nothing survives the filter, however many candidates were
/// generated.
pub proof fn law_fail_closed(
    cand: Option<(Seq<u8>, ChangeView)>,
    owners: Seq<Seq<u8>>,
)
    ensures
        filtered_change(cand, owners, Seq::empty()) is None,
{
}

} // verus!
