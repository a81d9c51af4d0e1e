use indexer_core::account::AccountId;
use indexer_core::account::SignatureId;
use indexer_core::candidates::CandidateMap;
use indexer_core::relevance::LocalRedisEmulator;
use indexer_core::simple_parser::parse_transaction_simple;
use indexer_core::token_accounts::TokenAccountChange;
use indexer_core::token_parser::apply_relevance;
use indexer_core::token_parser::token_program_id;
use indexer_core::transaction::CompiledInstruction;
use indexer_core::transaction::Message;
use indexer_core::transaction::TokenAmount;
use indexer_core::transaction::TokenBalance;
use indexer_core::transaction::Transaction;
use indexer_core::transaction::TransactionStatusMeta;
use indexer_core::transaction::UnifiedTransaction;

fn key(n: u8) -> AccountId {
    AccountId::new([n; 32])
}

fn b58(id: &AccountId) -> String {
    solana_pubkey::Pubkey::new_from_array(id.bytes).to_string()
}

/// A transaction whose account keys are `keys ++ [token program]`, with
/// one token-program instruction per entry of `account_refs`.
fn token_tx(keys: Vec<AccountId>, account_refs: Vec<Vec<u8>>) -> UnifiedTransaction {
    let program_index = keys.len() as u32;
    let mut all_keys = keys;
    all_keys.push(token_program_id());
    let instructions = account_refs
        .into_iter()
        .map(|accounts| CompiledInstruction {
            program_id_index: program_index,
            accounts,
            data: vec![3],
        })
        .collect();
    UnifiedTransaction {
        signature: SignatureId::new([7; 64]),
        slot: 42,
        block_time: None,
        transaction: Transaction {
            signatures: vec![],
            message: Some(Message {
                header: None,
                account_keys: all_keys,
                recent_blockhash: vec![],
                instructions,
                versioned: false,
                address_table_lookups: vec![],
            }),
        },
        meta: TransactionStatusMeta::default(),
        index: None,
    }
}

fn snapshot(account_index: u32, owner: AccountId, mint: AccountId, amount: u64, decimals: u32, ui: &str) -> TokenBalance {
    TokenBalance {
        account_index,
        mint,
        ui_token_amount: Some(TokenAmount {
            decimals,
            amount,
            ui_amount_string: ui.to_string(),
        }),
        owner,
        program_id: token_program_id(),
    }
}

fn changes_of(entry: &indexer_core::queue_entry::QueueEntry) -> &Vec<(AccountId, TokenAccountChange)> {
    &entry.token_account_changes.entries
}

#[test]
fn absent_message_parses_to_nothing() {
    let client = LocalRedisEmulator::new();
    let tx = UnifiedTransaction::default();
    let out = parse_transaction_simple(&client, 1, tx).expect("parsing never fails");
    assert!(out.is_none());
}

#[test]
fn no_token_instructions_parse_to_nothing() {
    let mut client = LocalRedisEmulator::new();
    client.set_relevant_owners(vec![key(1), key(2)]);
    // One instruction, but owned by a program other than the token program.
    let mut tx = token_tx(vec![key(1), key(2)], vec![]);
    if let Some(message) = &mut tx.transaction.message {
        message.instructions.push(CompiledInstruction {
            program_id_index: 0,
            accounts: vec![0, 1],
            data: vec![],
        });
    }
    let out = parse_transaction_simple(&client, 1, tx).expect("parsing never fails");
    assert!(out.is_none());
}

#[test]
fn snapshot_values_override_instruction_accounts() {
    let token_account = key(1);
    let fallback = key(2);
    let owner = key(3);
    let mint = key(4);
    let mut client = LocalRedisEmulator::new();
    client.set_relevant_owners(vec![owner]);
    let mut tx = token_tx(vec![token_account, fallback], vec![vec![0, 1]]);
    tx.meta.post_token_balances = vec![snapshot(0, owner, mint, 1234, 6, "0.001234")];
    let out = parse_transaction_simple(&client, 1, tx)
        .expect("parsing never fails")
        .expect("one relevant change");
    let changes = changes_of(&out);
    assert_eq!(changes.len(), 1);
    assert!(changes[0].0 == token_account);
    let change = &changes[0].1;
    assert_eq!(change.address, b58(&token_account));
    assert_eq!(change.owner, b58(&owner));
    assert_eq!(change.mint, b58(&mint));
    assert_eq!(change.amount, "1234");
    assert_eq!(change.decimals, 6);
    assert_eq!(change.ui_amount, "0.001234");
    assert_eq!(change.network, 1);
    assert_eq!(change.delegate, None);
    assert!(!change.is_frozen);
    assert_eq!(
        change.last_updated_signature,
        solana_signature::Signature::from([7u8; 64]).to_string()
    );
    assert_eq!(change.last_updated_slot, 42);
}

#[test]
fn missing_snapshot_defaults_to_zero_and_fallback_owner() {
    let token_account = key(1);
    let fallback = key(2);
    let mut client = LocalRedisEmulator::new();
    client.set_relevant_owners(vec![fallback]);
    let tx = token_tx(vec![token_account, fallback], vec![vec![0, 1]]);
    let out = parse_transaction_simple(&client, 1, tx)
        .expect("parsing never fails")
        .expect("one relevant change");
    let changes = changes_of(&out);
    assert_eq!(changes.len(), 1);
    let change = &changes[0].1;
    assert_eq!(change.amount, "0");
    assert_eq!(change.decimals, 0);
    assert_eq!(change.ui_amount, "0");
    assert_eq!(change.owner, b58(&fallback));
    assert_eq!(change.mint, b58(&fallback));
}

#[test]
fn snapshot_without_amount_record_is_all_zero() {
    let token_account = key(1);
    let fallback = key(2);
    let owner = key(3);
    let mut client = LocalRedisEmulator::new();
    client.set_relevant_owners(vec![owner]);
    let mut tx = token_tx(vec![token_account, fallback], vec![vec![0, 1]]);
    tx.meta.post_token_balances = vec![TokenBalance {
        account_index: 0,
        mint: key(4),
        ui_token_amount: None,
        owner,
        program_id: token_program_id(),
    }];
    let out = parse_transaction_simple(&client, 1, tx)
        .expect("parsing never fails")
        .expect("one relevant change");
    let change = &changes_of(&out)[0].1;
    assert_eq!(change.amount, "0");
    assert_eq!(change.decimals, 0);
    assert_eq!(change.ui_amount, "");
    assert_eq!(change.owner, b58(&owner));
}

#[test]
fn skips_instructions_with_too_few_or_out_of_range_accounts() {
    let mut client = LocalRedisEmulator::new();
    client.set_relevant_owners(vec![key(1), key(2)]);
    let tx = token_tx(
        vec![key(1), key(2)],
        vec![vec![0], vec![99, 1], vec![0, 99]],
    );
    let out = parse_transaction_simple(&client, 1, tx).expect("parsing never fails");
    assert!(out.is_none());
}

#[test]
fn relevance_filter_keeps_only_tracked_owners() {
    // Accounts A (owner X) and B (owner Y); the oracle tracks X only.
    let account_a = key(1);
    let account_b = key(2);
    let owner_x = key(3);
    let owner_y = key(4);
    let mint = key(5);
    let mut client = LocalRedisEmulator::new();
    client.set_relevant_owners(vec![owner_x]);
    let mut tx = token_tx(
        vec![account_a, account_b],
        vec![vec![0, 1], vec![1, 0]],
    );
    tx.meta.post_token_balances = vec![
        snapshot(0, owner_x, mint, 10, 0, "10"),
        snapshot(1, owner_y, mint, 20, 0, "20"),
    ];
    let out = parse_transaction_simple(&client, 1, tx)
        .expect("parsing never fails")
        .expect("exactly one relevant change");
    let changes = changes_of(&out);
    assert_eq!(changes.len(), 1);
    assert!(changes[0].0 == account_a);
    assert_eq!(changes[0].1.address, b58(&account_a));
    assert_eq!(changes[0].1.owner, b58(&owner_x));
}

#[test]
fn duplicate_token_account_keeps_later_instruction() {
    // Two instructions write the same token account; with no snapshots the
    // owner falls back to each instruction's second account, so the later
    // instruction's fallback owner must win.
    let token_account = key(1);
    let first_fallback = key(2);
    let second_fallback = key(3);
    let mut client = LocalRedisEmulator::new();
    client.set_relevant_owners(vec![first_fallback, second_fallback]);
    let tx = token_tx(
        vec![token_account, first_fallback, second_fallback],
        vec![vec![0, 1], vec![0, 2]],
    );
    let out = parse_transaction_simple(&client, 1, tx)
        .expect("parsing never fails")
        .expect("one change for the address");
    let changes = changes_of(&out);
    assert_eq!(changes.len(), 1);
    assert!(changes[0].0 == token_account);
    assert_eq!(changes[0].1.owner, b58(&second_fallback));
}

#[test]
fn rerunning_the_parser_yields_identical_changes() {
    let mut client = LocalRedisEmulator::new();
    client.set_relevant_owners(vec![key(3)]);
    let build = || {
        let mut tx = token_tx(vec![key(1), key(2)], vec![vec![0, 1]]);
        tx.meta.post_token_balances = vec![snapshot(0, key(3), key(4), 99, 2, "0.99")];
        tx
    };
    let out1 = parse_transaction_simple(&client, 1, build())
        .expect("parsing never fails")
        .expect("one change");
    let out2 = parse_transaction_simple(&client, 1, build())
        .expect("parsing never fails")
        .expect("one change");
    let c1 = changes_of(&out1);
    let c2 = changes_of(&out2);
    assert_eq!(c1.len(), c2.len());
    assert!(c1[0].0 == c2[0].0);
    assert!(c1[0].1 == c2[0].1);
}

#[test]
fn unpopulated_oracle_drops_every_candidate() {
    // Fail-closed: an oracle with no data reports nothing as relevant.
    let client = LocalRedisEmulator::new();
    let mut tx = token_tx(vec![key(1), key(2)], vec![vec![0, 1]]);
    tx.meta.post_token_balances = vec![snapshot(0, key(3), key(4), 10, 0, "10")];
    let out = parse_transaction_simple(&client, 1, tx).expect("parsing never fails");
    assert!(out.is_none());
}

#[test]
fn empty_relevance_answer_drops_every_candidate() {
    // Fail-closed: with no usable flags (the reading of a failed oracle
    // call) the filter keeps nothing, however many candidates exist.
    let mut candidates = CandidateMap::new();
    let change = TokenAccountChange {
        address: b58(&key(1)),
        network: 1,
        owner: b58(&key(3)),
        mint: b58(&key(3)),
        amount: "5".to_string(),
        decimals: 0,
        ui_amount: "5".to_string(),
        delegate: None,
        is_frozen: false,
        last_updated_signature: String::new(),
        last_updated_slot: 0,
    };
    candidates.insert(key(1), key(3), change);
    let owners = vec![key(3)];
    let flags: Vec<bool> = vec![];
    let filtered = apply_relevance(candidates, &owners, &flags);
    assert!(filtered.is_empty());
}

#[test]
fn queue_entry_records_transaction_identity() {
    let mut client = LocalRedisEmulator::new();
    client.set_relevant_owners(vec![key(3)]);
    let mut tx = token_tx(vec![key(1), key(2)], vec![vec![0, 1]]);
    tx.meta.post_token_balances = vec![snapshot(0, key(3), key(4), 10, 0, "10")];
    let out = parse_transaction_simple(&client, 5, tx)
        .expect("parsing never fails")
        .expect("one change");
    assert_eq!(out.network, 5);
    assert_eq!(out.slot, 42);
    assert!(out.signature == SignatureId::new([7; 64]));
    assert!(out.contains_changes());
}
