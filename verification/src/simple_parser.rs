//! The parsing orchestrator: the single entry point that resolves a
//! transaction's instructions, runs the token-program parser, merges its
//! output, and reports the result only when it holds changes.

use vstd::prelude::*;

use crate::grouping::buckets_spec;
use crate::parser_trait::ExtendQueueEntry;
use crate::parser_trait::ParseError;
use crate::queue_entry::QueueEntry;
use crate::relevance::oracle_flag;
use crate::relevance::LocalRedisEmulator;
use crate::relevance::SmartAccountRedisClient;
use crate::resolver::account_keys_spec;
use crate::resolver::key_views;
use crate::token_accounts::ChangeView;
use crate::token_parser::balance_views;
use crate::token_parser::candidate_map_upto;
use crate::token_parser::filtered_change;
use crate::token_parser::owners_upto;
use crate::token_parser::token_program_key;
use crate::token_parser::TokenProgramParser;
use crate::transaction::UnifiedTransaction;

verus! {

/// The change the whole pipeline leaves under address `k` for one
/// transaction against one oracle state; `None` when nothing relevant
/// survives at `k`.
pub open spec fn simple_outcome_at(
    transaction: &UnifiedTransaction,
    network: i32,
    client: &LocalRedisEmulator,
    k: Seq<u8>,
) -> Option<ChangeView> {
    match buckets_spec(transaction, token_program_key()) {
        None => None,
        Some(bucket) => {
            let keysv = key_views(account_keys_spec(transaction));
            let balv = balance_views(transaction.meta.post_token_balances@);
            let owners = owners_upto(bucket, keysv, balv, bucket.len() as int);
            let flags = owners.map_values(|o: Seq<u8>| oracle_flag(client, o));
            filtered_change(
                candidate_map_upto(
                    bucket,
                    keysv,
                    balv,
                    network,
                    transaction.signature@,
                    (transaction.slot as i32) as i64,
                    bucket.len() as int,
                    k,
                ),
                owners,
                flags,
            )
        },
    }
}

/// Parses one transaction end to end: groups its instructions by program,
/// runs the token-program parser against the relevance oracle, and returns
/// the populated queue entry — or `Ok(None)` when no relevant change
/// survives, so the transaction is dropped rather than forwarded.
pub fn parse_transaction_simple(
    redis_client: &SmartAccountRedisClient,
    network: i32,
    transaction: UnifiedTransaction,
) -> (r: Result<Option<QueueEntry>, ParseError>)
    ensures
        r is Ok,
        r matches Ok(opt) ==> match opt {
            None => forall|k: Seq<u8>|
                #[trigger] simple_outcome_at(&transaction, network, redis_client, k) is None,
            Some(qe) => {
                &&& qe.network == network
                &&& qe.signature == transaction.signature
                &&& qe.transaction == transaction
                &&& qe.slot == transaction.slot as i32
                &&& qe.block_time == 0
                &&& qe.token_account_changes.wf()
                &&& !qe.token_account_changes.spec_is_empty()
                &&& forall|k: Seq<u8>|
                    #[trigger] qe.token_account_changes.spec_get(k) == simple_outcome_at(
                        &transaction,
                        network,
                        redis_client,
                        k,
                    )
            },
        },
{
    let instructions = transaction.get_instructions_by_program_id();
    let signature = transaction.signature;
    let mut state_and_transaction_changes = QueueEntry::new(network, signature, transaction);
    let token_parser = TokenProgramParser::new();
    let parse_result = token_parser.parse_transaction(
        &state_and_transaction_changes,
        network,
        redis_client,
        &instructions,
    );
    let ghost qe0 = state_and_transaction_changes;
    proof {
        assert(instructions.spec_get(token_program_key()) == buckets_spec(
            &transaction,
            token_program_key(),
        ));
    }
    match parse_result {
        Ok(Some(parsing_result)) => {
            let ghost deltav = parsing_result.delta();
            parsing_result.extend_queue_entry(&mut state_and_transaction_changes);
            proof {
                assert forall|k: Seq<u8>|
                    #[trigger] state_and_transaction_changes.token_account_changes.spec_get(k)
                        == simple_outcome_at(&transaction, network, redis_client, k) by {
                    assert(qe0.token_account_changes.spec_get(k) is None);
                    assert(deltav.spec_get(k) == crate::token_parser::parse_outcome_at(
                        &qe0,
                        network,
                        redis_client,
                        &instructions,
                        k,
                    ));
                }
                deltav.lemma_empty_iff_none();
                let kw = deltav.entries@[0].0@;
                assert(deltav.spec_get(kw) is Some);
                assert(state_and_transaction_changes.token_account_changes.spec_get(kw)
                    is Some);
                state_and_transaction_changes.token_account_changes.lemma_empty_iff_none();
            }
        },
        Ok(None) => {
            proof {
                assert forall|k: Seq<u8>|
                    #[trigger] simple_outcome_at(&transaction, network, redis_client, k)
                        is None by {
                    assert(crate::token_parser::parse_outcome_at(
                        &qe0,
                        network,
                        redis_client,
                        &instructions,
                        k,
                    ) is None);
                }
            }
        },
        Err(e) => {
            return Err(e);
        },
    }
    if !state_and_transaction_changes.contains_changes() {
        proof {
            state_and_transaction_changes.token_account_changes.lemma_empty_iff_none();
        }
        Ok(None)
    } else {
        Ok(Some(state_and_transaction_changes))
    }
}

} // verus!
