//! The passive transaction model: a decoded transaction with its message,
//! compiled and inner instructions, balance snapshots and the extra account
//! keys loaded through address-table lookups.

use vstd::prelude::*;

use crate::account::AccountId;
use crate::account::SignatureId;

verus! {

/// An instruction referencing its program and accounts by index into the
/// transaction's resolved account-key list, plus opaque data.
pub struct CompiledInstruction {
    pub program_id_index: u32,
    pub accounts: Vec<u8>,
    pub data: Vec<u8>,
}

/// The mathematical value of a compiled instruction.
#[verifier::ext_equal]
pub ghost struct InstructionView {
    pub program_id_index: u32,
    pub accounts: Seq<u8>,
    pub data: Seq<u8>,
}

impl View for CompiledInstruction {
    type V = InstructionView;

    open spec fn view(&self) -> InstructionView {
        InstructionView {
            program_id_index: self.program_id_index,
            accounts: self.accounts@,
            data: self.data@,
        }
    }
}

impl Clone for CompiledInstruction {
    fn clone(&self) -> (r: Self)
        ensures
            r@ == self@,
    {
        let r = CompiledInstruction {
            program_id_index: self.program_id_index,
            accounts: self.accounts.clone(),
            data: self.data.clone(),
        };
        proof {
            assert(r.accounts@ =~= self.accounts@);
            assert(r.data@ =~= self.data@);
            assert(r@ =~= self@);
        }
        r
    }
}

/// An instruction invoked during execution of a top-level instruction,
/// carrying an optional invocation-stack-height hint.
pub struct InnerInstruction {
    pub program_id_index: u32,
    pub accounts: Vec<u8>,
    pub data: Vec<u8>,
    pub stack_height: Option<u32>,
}

/// The mathematical value of an inner instruction.
#[verifier::ext_equal]
pub ghost struct InnerInstructionView {
    pub program_id_index: u32,
    pub accounts: Seq<u8>,
    pub data: Seq<u8>,
    pub stack_height: Option<u32>,
}

impl InnerInstructionView {
    /// The compiled-instruction shape of an inner instruction: the same
    /// indices and data with the stack-height hint dropped.
    pub open spec fn as_instruction(self) -> InstructionView {
        InstructionView {
            program_id_index: self.program_id_index,
            accounts: self.accounts,
            data: self.data,
        }
    }
}

impl View for InnerInstruction {
    type V = InnerInstructionView;

    open spec fn view(&self) -> InnerInstructionView {
        InnerInstructionView {
            program_id_index: self.program_id_index,
            accounts: self.accounts@,
            data: self.data@,
            stack_height: self.stack_height,
        }
    }
}

impl Clone for InnerInstruction {
    fn clone(&self) -> (r: Self)
        ensures
            r@ == self@,
    {
        let r = InnerInstruction {
            program_id_index: self.program_id_index,
            accounts: self.accounts.clone(),
            data: self.data.clone(),
            stack_height: self.stack_height,
        };
        proof {
            assert(r.accounts@ =~= self.accounts@);
            assert(r.data@ =~= self.data@);
            assert(r@ =~= self@);
        }
        r
    }
}

/// The inner instructions recorded under one top-level instruction, grouped
/// by that instruction's position in the message.
pub struct InnerInstructions {
    pub index: u32,
    pub instructions: Vec<InnerInstruction>,
}

/// The mathematical value of one inner-instruction group.
#[verifier::ext_equal]
pub ghost struct InnerGroupView {
    pub index: u32,
    pub instructions: Seq<InnerInstructionView>,
}

impl View for InnerInstructions {
    type V = InnerGroupView;

    open spec fn view(&self) -> InnerGroupView {
        InnerGroupView {
            index: self.index,
            instructions: self.instructions@.map_values(|ix: InnerInstruction| ix@),
        }
    }
}

/// A token amount as the balance snapshot reports it: raw units, decimal
/// count, and the pre-rendered display string.
pub struct TokenAmount {
    pub decimals: u32,
    pub amount: u64,
    pub ui_amount_string: String,
}

/// The mathematical value of a token amount.
#[verifier::ext_equal]
pub ghost struct TokenAmountView {
    pub decimals: u32,
    pub amount: u64,
    pub ui_amount_string: Seq<char>,
}

impl View for TokenAmount {
    type V = TokenAmountView;

    open spec fn view(&self) -> TokenAmountView {
        TokenAmountView {
            decimals: self.decimals,
            amount: self.amount,
            ui_amount_string: self.ui_amount_string@,
        }
    }
}

impl Clone for TokenAmount {
    fn clone(&self) -> (r: Self)
        ensures
            r@ == self@,
    {
        let r = TokenAmount {
            decimals: self.decimals,
            amount: self.amount,
            ui_amount_string: self.ui_amount_string.clone(),
        };
        proof {
            assert(r@ =~= self@);
        }
        r
    }
}

impl Default for TokenAmount {
    /// The all-zero amount, with an empty display string.
    fn default() -> (r: TokenAmount)
        ensures
            r@ == (TokenAmountView { decimals: 0, amount: 0, ui_amount_string: Seq::empty() }),
    {
        let r = TokenAmount { decimals: 0, amount: 0, ui_amount_string: String::new() };
        proof {
            assert(r@ =~= (TokenAmountView {
                decimals: 0,
                amount: 0,
                ui_amount_string: Seq::empty(),
            }));
        }
        r
    }
}

/// A post-transaction token-balance snapshot, keyed by `account_index` into
/// the resolved account-key list of the same transaction.
pub struct TokenBalance {
    pub account_index: u32,
    pub mint: AccountId,
    pub ui_token_amount: Option<TokenAmount>,
    pub owner: AccountId,
    pub program_id: AccountId,
}

/// The mathematical value of a token-balance snapshot.
#[verifier::ext_equal]
pub ghost struct TokenBalanceView {
    pub account_index: u32,
    pub mint: Seq<u8>,
    pub ui_token_amount: Option<TokenAmountView>,
    pub owner: Seq<u8>,
    pub program_id: Seq<u8>,
}

impl View for TokenBalance {
    type V = TokenBalanceView;

    open spec fn view(&self) -> TokenBalanceView {
        TokenBalanceView {
            account_index: self.account_index,
            mint: self.mint@,
            ui_token_amount: match self.ui_token_amount {
                Some(a) => Some(a@),
                None => None,
            },
            owner: self.owner@,
            program_id: self.program_id@,
        }
    }
}

impl Default for TokenBalance {
    /// A snapshot with zero index, zero identities and no amount record.
    fn default() -> (r: TokenBalance)
        ensures
            r.account_index == 0,
            r.ui_token_amount is None,
    {
        TokenBalance {
            account_index: 0,
            mint: AccountId::default(),
            ui_token_amount: None,
            owner: AccountId::default(),
            program_id: AccountId::default(),
        }
    }
}

/// The counts in a message header.
#[derive(Clone, Copy, PartialEq, Eq, Structural, Debug)]
pub struct MessageHeader {
    pub num_required_signatures: u32,
    pub num_readonly_signed_accounts: u32,
    pub num_readonly_unsigned_accounts: u32,
}

/// A reference to an address-lookup table and the entries a transaction
/// loads from it, split into writable and read-only index lists.
pub struct MessageAddressTableLookup {
    pub account_key: AccountId,
    pub writable_indexes: Vec<u8>,
    pub readonly_indexes: Vec<u8>,
}

/// A transaction message: the base account-key list and the ordered
/// top-level instructions.
pub struct Message {
    pub header: Option<MessageHeader>,
    pub account_keys: Vec<AccountId>,
    pub recent_blockhash: Vec<u8>,
    pub instructions: Vec<CompiledInstruction>,
    pub versioned: bool,
    pub address_table_lookups: Vec<MessageAddressTableLookup>,
}

/// A transaction: its signatures and its (possibly absent) message.
pub struct Transaction {
    pub signatures: Vec<SignatureId>,
    pub message: Option<Message>,
}

impl Default for Transaction {
    /// A transaction with no signatures and no message.
    fn default() -> (r: Transaction)
        ensures
            r.signatures@.len() == 0,
            r.message is None,
    {
        Transaction { signatures: Vec::new(), message: None }
    }
}

/// Per-transaction execution metadata: inner instructions, balance
/// snapshots, and the account keys loaded from address-table lookups.
pub struct TransactionStatusMeta {
    pub fee: u64,
    pub pre_balances: Vec<u64>,
    pub post_balances: Vec<u64>,
    pub inner_instructions: Vec<InnerInstructions>,
    pub pre_token_balances: Vec<TokenBalance>,
    pub post_token_balances: Vec<TokenBalance>,
    pub loaded_writable_addresses: Vec<AccountId>,
    pub loaded_readonly_addresses: Vec<AccountId>,
    pub compute_units_consumed: Option<u64>,
}

impl Default for TransactionStatusMeta {
    /// Metadata with no balances, no inner instructions and no loaded
    /// addresses.
    fn default() -> (r: TransactionStatusMeta)
        ensures
            r.fee == 0,
            r.inner_instructions@.len() == 0,
            r.pre_token_balances@.len() == 0,
            r.post_token_balances@.len() == 0,
            r.loaded_writable_addresses@.len() == 0,
            r.loaded_readonly_addresses@.len() == 0,
            r.compute_units_consumed is None,
    {
        TransactionStatusMeta {
            fee: 0,
            pre_balances: Vec::new(),
            post_balances: Vec::new(),
            inner_instructions: Vec::new(),
            pre_token_balances: Vec::new(),
            post_token_balances: Vec::new(),
            loaded_writable_addresses: Vec::new(),
            loaded_readonly_addresses: Vec::new(),
            compute_units_consumed: None,
        }
    }
}

/// A decoded transaction together with its metadata, as the upstream source
/// hands it over.
pub struct UnifiedTransaction {
    pub signature: SignatureId,
    pub slot: u64,
    pub block_time: Option<i64>,
    pub transaction: Transaction,
    pub meta: TransactionStatusMeta,
    pub index: Option<u64>,
}

impl Default for UnifiedTransaction {
    /// An empty transaction at slot zero with a zeroed signature.
    fn default() -> (r: UnifiedTransaction)
        ensures
            r.slot == 0,
            r.block_time is None,
            r.transaction.message is None,
            r.meta.post_token_balances@.len() == 0,
            r.meta.inner_instructions@.len() == 0,
            r.meta.loaded_writable_addresses@.len() == 0,
            r.meta.loaded_readonly_addresses@.len() == 0,
            r.index is None,
    {
        UnifiedTransaction {
            signature: SignatureId::default(),
            slot: 0,
            block_time: None,
            transaction: Transaction::default(),
            meta: TransactionStatusMeta::default(),
            index: None,
        }
    }
}

} // verus!
