use indexer_core::account::AccountId;
use indexer_core::account::SignatureId;
use indexer_core::transaction::CompiledInstruction;
use indexer_core::transaction::InnerInstruction;
use indexer_core::transaction::InnerInstructions;
use indexer_core::transaction::Message;
use indexer_core::transaction::Transaction;
use indexer_core::transaction::TransactionStatusMeta;
use indexer_core::transaction::UnifiedTransaction;

fn key(n: u8) -> AccountId {
    AccountId::new([n; 32])
}

fn ix(program: u32, accounts: Vec<u8>) -> CompiledInstruction {
    CompiledInstruction {
        program_id_index: program,
        accounts,
        data: vec![program as u8],
    }
}

fn tx_with(keys: Vec<AccountId>, instructions: Vec<CompiledInstruction>) -> UnifiedTransaction {
    UnifiedTransaction {
        signature: SignatureId::new([7; 64]),
        slot: 42,
        block_time: None,
        transaction: Transaction {
            signatures: vec![],
            message: Some(Message {
                header: None,
                account_keys: keys,
                recent_blockhash: vec![],
                instructions,
                versioned: false,
                address_table_lookups: vec![],
            }),
        },
        meta: TransactionStatusMeta::default(),
        index: None,
    }
}

#[test]
fn account_keys_concatenate_in_fixed_order() {
    let mut tx = tx_with(vec![key(1), key(2)], vec![]);
    tx.meta.loaded_writable_addresses = vec![key(3)];
    tx.meta.loaded_readonly_addresses = vec![key(4), key(5)];
    let keys = tx.get_account_keys();
    assert_eq!(keys.len(), 5);
    assert!(keys[0] == key(1));
    assert!(keys[1] == key(2));
    assert!(keys[2] == key(3));
    assert!(keys[3] == key(4));
    assert!(keys[4] == key(5));
}

#[test]
fn absent_message_resolves_to_empty_key_list() {
    let mut tx = UnifiedTransaction::default();
    tx.meta.loaded_writable_addresses = vec![key(3)];
    tx.meta.loaded_readonly_addresses = vec![key(4)];
    assert_eq!(tx.get_account_keys().len(), 0);
    assert_eq!(tx.get_all_instructions_ordered().len(), 0);
}

#[test]
fn inner_group_follows_its_parent_in_flattened_order() {
    // Four top-level instructions; one inner group recorded under the
    // top-level instruction at position 2.
    let mut tx = tx_with(
        vec![key(1), key(2), key(3), key(4), key(5)],
        vec![ix(0, vec![]), ix(1, vec![]), ix(2, vec![]), ix(3, vec![])],
    );
    tx.meta.inner_instructions = vec![InnerInstructions {
        index: 2,
        instructions: vec![
            InnerInstruction {
                program_id_index: 4,
                accounts: vec![9],
                data: vec![100],
                stack_height: Some(2),
            },
            InnerInstruction {
                program_id_index: 4,
                accounts: vec![8],
                data: vec![101],
                stack_height: None,
            },
        ],
    }];
    let flat = tx.get_all_instructions_ordered();
    let programs: Vec<u32> = flat.iter().map(|i| i.program_id_index).collect();
    assert_eq!(programs, vec![0, 1, 2, 4, 4, 3]);
    // The inner instructions keep their own order and data, and sit
    // between top-level instruction 2 and top-level instruction 3.
    assert_eq!(flat[3].data, vec![100]);
    assert_eq!(flat[4].data, vec![101]);
}

#[test]
fn only_first_matching_inner_group_is_used() {
    let mut tx = tx_with(vec![key(1), key(2)], vec![ix(0, vec![])]);
    tx.meta.inner_instructions = vec![
        InnerInstructions {
            index: 0,
            instructions: vec![InnerInstruction {
                program_id_index: 1,
                accounts: vec![],
                data: vec![50],
                stack_height: None,
            }],
        },
        InnerInstructions {
            index: 0,
            instructions: vec![InnerInstruction {
                program_id_index: 1,
                accounts: vec![],
                data: vec![51],
                stack_height: None,
            }],
        },
    ];
    let flat = tx.get_all_instructions_ordered();
    assert_eq!(flat.len(), 2);
    assert_eq!(flat[1].data, vec![50]);
}

#[test]
fn grouping_buckets_keep_call_order_and_skip_unresolvable() {
    let mut tx = tx_with(
        vec![key(10), key(20)],
        vec![ix(0, vec![1]), ix(1, vec![2]), ix(0, vec![3]), ix(9, vec![4])],
    );
    tx.meta.inner_instructions = vec![InnerInstructions {
        index: 0,
        instructions: vec![InnerInstruction {
            program_id_index: 1,
            accounts: vec![5],
            data: vec![0],
            stack_height: None,
        }],
    }];
    let grouped = tx.get_instructions_by_program_id();
    let p0 = grouped.get(&key(10)).expect("program 10 bucket");
    // Top-level instruction 0, then nothing else for this program.
    assert_eq!(p0.len(), 2);
    assert_eq!(p0[0].accounts, vec![1]);
    assert_eq!(p0[1].accounts, vec![3]);
    let p1 = grouped.get(&key(20)).expect("program 20 bucket");
    // The inner instruction follows its parent and resolves on its own.
    assert_eq!(p1.len(), 2);
    assert_eq!(p1[0].accounts, vec![5]);
    assert_eq!(p1[1].accounts, vec![2]);
    // program_id_index 9 is out of range and silently skipped.
    assert!(grouped.get(&key(9)).is_none());
}

#[test]
fn filter_by_programs_pairs_flattened_positions() {
    let tx = tx_with(
        vec![key(10), key(20)],
        vec![ix(0, vec![1]), ix(1, vec![2]), ix(0, vec![3])],
    );
    let filtered = tx.get_all_instructions_by_programs(vec![key(10)]);
    assert_eq!(filtered.len(), 2);
    assert_eq!(filtered[0].0, 0);
    assert_eq!(filtered[0].1.accounts, vec![1]);
    assert_eq!(filtered[1].0, 2);
    assert_eq!(filtered[1].1.accounts, vec![3]);
}

#[test]
fn filter_with_empty_program_set_matches_all() {
    let tx = tx_with(
        vec![key(10), key(20)],
        vec![ix(0, vec![1]), ix(1, vec![2])],
    );
    let filtered = tx.get_all_instructions_by_programs(vec![]);
    assert_eq!(filtered.len(), 2);
}

#[test]
fn inner_instructions_flatten_with_parent_indices() {
    let mut tx = tx_with(vec![key(1), key(2)], vec![ix(0, vec![]), ix(0, vec![])]);
    tx.meta.inner_instructions = vec![
        InnerInstructions {
            index: 1,
            instructions: vec![InnerInstruction {
                program_id_index: 0,
                accounts: vec![],
                data: vec![1],
                stack_height: None,
            }],
        },
        InnerInstructions {
            index: 0,
            instructions: vec![InnerInstruction {
                program_id_index: 1,
                accounts: vec![],
                data: vec![2],
                stack_height: None,
            }],
        },
    ];
    let inner = tx.get_all_inner_instructions();
    assert_eq!(inner.len(), 2);
    assert_eq!(inner[0].0, 1);
    assert_eq!(inner[0].1.data, vec![1]);
    assert_eq!(inner[1].0, 0);
    assert_eq!(inner[1].1.data, vec![2]);

    let by_program = tx.get_all_inner_instructions_by_programs(&[key(2)]);
    assert_eq!(by_program.len(), 1);
    assert_eq!(by_program[0].1.data, vec![2]);
}
