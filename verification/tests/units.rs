use indexer_core::account::AccountId;
use indexer_core::change_map::ChangeMap;
use indexer_core::cluster::Cluster;
use indexer_core::decimal::u64_to_string;
use indexer_core::queue_entry::QueueEntry;
use indexer_core::relevance::LocalRedisEmulator;
use indexer_core::token_accounts::TokenAccountChange;
use indexer_core::token_parser::token_program_id;
use indexer_core::transaction::UnifiedTransaction;
use indexer_core::types::BillingEventStatus;
use indexer_core::types::Environment;
use indexer_core::types::TransferDirection;

fn key(n: u8) -> AccountId {
    AccountId::new([n; 32])
}

fn change(tag: &str) -> TokenAccountChange {
    TokenAccountChange {
        address: tag.to_string(),
        network: 0,
        owner: tag.to_string(),
        mint: tag.to_string(),
        amount: "1".to_string(),
        decimals: 0,
        ui_amount: "1".to_string(),
        delegate: None,
        is_frozen: false,
        last_updated_signature: String::new(),
        last_updated_slot: 0,
    }
}

#[test]
fn decimal_rendering_matches_std() {
    assert_eq!(u64_to_string(0), "0");
    assert_eq!(u64_to_string(7), "7");
    assert_eq!(u64_to_string(10), "10");
    assert_eq!(u64_to_string(1234567890), "1234567890");
    assert_eq!(u64_to_string(u64::MAX), u64::MAX.to_string());
}

#[test]
fn token_program_identity_matches_the_published_program() {
    assert_eq!(token_program_id().bytes, spl_token::ID.to_bytes());
    assert_eq!(
        solana_pubkey::Pubkey::new_from_array(token_program_id().bytes).to_string(),
        "TokenkegQfeZyiNwAJbNbGKPFXCWuBvf9Ss623VQ5DA"
    );
}

#[test]
fn account_ids_compare_by_bytes() {
    assert!(key(1) == key(1));
    assert!(key(1) != key(2));
    let mut bytes = [1u8; 32];
    bytes[31] = 2;
    assert!(AccountId::new(bytes) != key(1));
}

#[test]
fn cluster_parses_case_insensitively() {
    assert_eq!(Cluster::from_str("devnet"), Ok(Cluster::Devnet));
    assert_eq!(Cluster::from_str("DEVNET"), Ok(Cluster::Devnet));
    assert_eq!(Cluster::from_str("Mainnet"), Ok(Cluster::Mainnet));
    assert_eq!(Cluster::from_str("mainnet"), Ok(Cluster::Mainnet));
    assert_eq!(
        Cluster::from_str("testnet"),
        Err("Invalid cluster. Must be 'mainnet' or 'devnet'".to_string())
    );
}

#[test]
fn cluster_network_ids_and_names() {
    assert_eq!(Cluster::Devnet.to_network_id(), 0);
    assert_eq!(Cluster::Mainnet.to_network_id(), 1);
    assert_eq!(Cluster::Devnet.display_name(), "devnet");
    assert_eq!(Cluster::Mainnet.display_name(), "mainnet");
}

#[test]
fn unpopulated_oracle_answers_all_false() {
    let client = LocalRedisEmulator::new();
    let flags = client
        .batch_check_token_account_owners(&vec![key(1), key(2)])
        .expect("emulator never fails");
    assert_eq!(flags, vec![false, false]);
}

#[test]
fn populated_oracle_answers_membership_per_position() {
    let mut client = LocalRedisEmulator::new();
    client.set_relevant_owners(vec![key(2), key(4)]);
    let flags = client
        .batch_check_token_account_owners(&vec![key(1), key(2), key(4), key(2)])
        .expect("emulator never fails");
    assert_eq!(flags, vec![false, true, true, true]);
}

#[test]
fn change_map_overwrites_on_duplicate_address() {
    let mut map = ChangeMap::new();
    assert!(map.is_empty());
    map.insert(key(1), change("first"));
    map.insert(key(2), change("other"));
    map.insert(key(1), change("second"));
    assert_eq!(map.len(), 2);
    assert_eq!(map.get(&key(1)).expect("present").address, "second");
    assert_eq!(map.get(&key(2)).expect("present").address, "other");
    assert!(map.get(&key(3)).is_none());
}

#[test]
fn change_map_extension_prefers_incoming_changes() {
    let mut base = ChangeMap::new();
    base.insert(key(1), change("old"));
    base.insert(key(2), change("kept"));
    let mut incoming = ChangeMap::new();
    incoming.insert(key(1), change("new"));
    incoming.insert(key(3), change("added"));
    base.extend_from(incoming);
    assert_eq!(base.len(), 3);
    assert_eq!(base.get(&key(1)).expect("present").address, "new");
    assert_eq!(base.get(&key(2)).expect("present").address, "kept");
    assert_eq!(base.get(&key(3)).expect("present").address, "added");
}

#[test]
fn queue_entry_slot_comes_from_the_transaction() {
    let mut tx = UnifiedTransaction::default();
    tx.slot = 77;
    let entry = QueueEntry::new(3, Default::default(), tx);
    assert_eq!(entry.slot, 77);
    assert_eq!(entry.network, 3);
    assert_eq!(entry.block_time, 0);
    assert!(!entry.contains_changes());
    let by_default = QueueEntry::default();
    assert_eq!(by_default.slot, 0);
    assert!(!by_default.contains_changes());
}

#[test]
fn shared_enums_are_plain_values() {
    assert_eq!(
        BillingEventStatus::Confirmed.clone(),
        BillingEventStatus::Confirmed
    );
    assert!(BillingEventStatus::Pending != BillingEventStatus::Failed);
    assert_eq!(Environment::Sandbox.clone(), Environment::Sandbox);
    assert!(Environment::Sandbox != Environment::Production);
    assert_eq!(TransferDirection::Inflow.clone(), TransferDirection::Inflow);
    assert!(TransferDirection::Inflow != TransferDirection::Outflow);
}
