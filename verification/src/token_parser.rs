//! The token-program parser: decodes token-program instructions into
//! candidate token-account changes, correlates them with post-transaction
//! balance snapshots, and filters them by owner relevance through one
//! batched oracle query per transaction.

use vstd::prelude::*;

use crate::account::pubkey_base58_of;
use crate::account::pubkey_to_base58;
use crate::account::signature_base58_of;
use crate::account::signature_to_base58;
use crate::account::AccountId;
use crate::account::SignatureId;
use crate::candidates::lemma_candidate_at_occurs;
use crate::candidates::lemma_candidate_at_witness;
use crate::candidates::CandidateMap;
use crate::change_map::ChangeMap;
use crate::decimal::dec_str;
use crate::decimal::u64_to_string;
use crate::grouping::InstructionsByProgram;
use crate::parser_trait::ExtendQueueEntry;
use crate::parser_trait::ParseError;
use crate::parser_trait::ParsingResult;
use crate::queue_entry::QueueEntry;
use crate::relevance::oracle_flag;
use crate::relevance::LocalRedisEmulator;
use crate::resolver::account_keys_spec;
use crate::resolver::instruction_views;
use crate::resolver::key_views;
use crate::token_accounts::ChangeView;
use crate::token_accounts::TokenAccountChange;
use crate::transaction::InstructionView;
use crate::transaction::TokenAmountView;
use crate::transaction::TokenBalance;
use crate::transaction::TokenBalanceView;

verus! {

/// The 32 address bytes of the token program, whose instruction buckets
/// this parser consumes.
pub open spec fn token_program_key() -> Seq<u8> {
    seq![
        6u8, 221u8, 246u8, 225u8, 215u8, 101u8, 161u8, 147u8, 217u8, 203u8, 225u8, 70u8,
        206u8, 235u8, 121u8, 172u8, 28u8, 180u8, 133u8, 237u8, 95u8, 91u8, 55u8, 145u8,
        58u8, 140u8, 245u8, 133u8, 126u8, 255u8, 0u8, 169u8,
    ]
}

/// The token program's account identity.
pub fn token_program_id() -> (r: AccountId)
    ensures
        r@ == token_program_key(),
{
    let bytes: [u8; 32] = [
        6, 221, 246, 225, 215, 101, 161, 147, 217, 203, 225, 70, 206, 235, 121, 172, 28, 180,
        133, 237, 95, 91, 55, 145, 58, 140, 245, 133, 126, 255, 0, 169,
    ];
    proof {
        assert(bytes@ =~= token_program_key());
    }
    AccountId { bytes }
}

/// The views of a sequence of balance snapshots.
pub open spec fn balance_views(s: Seq<TokenBalance>) -> Seq<TokenBalanceView> {
    s.map_values(|b: TokenBalance| b@)
}

/// The first post-balance snapshot recorded for the given account index,
/// if any.
pub open spec fn first_balance_for(balances: Seq<TokenBalanceView>, idx: u32) -> Option<
    TokenBalanceView,
>
    decreases balances.len(),
{
    if balances.len() == 0 {
        None
    } else if balances[0].account_index == idx {
        Some(balances[0])
    } else {
        first_balance_for(balances.drop_first(), idx)
    }
}

proof fn lemma_first_balance_from(balances: Seq<TokenBalanceView>, idx: u32, i: int)
    requires
        0 <= i <= balances.len(),
        forall|j: int| 0 <= j < i ==> balances[j].account_index != idx,
    ensures
        i == balances.len() ==> first_balance_for(balances, idx) is None,
        i < balances.len() && balances[i].account_index == idx ==> first_balance_for(
            balances,
            idx,
        ) == Some(balances[i]),
    decreases balances.len(),
{
    if balances.len() == 0 {
    } else if balances[0].account_index == idx {
    } else {
        let rest = balances.drop_first();
        let i2 = if i > 0 {
            i - 1
        } else {
            0
        };
        assert(forall|j: int| 0 <= j < i2 ==> rest[j] == balances[j + 1]);
        lemma_first_balance_from(rest, idx, i2);
    }
}

/// Whether the parser skips an instruction: it references fewer than two
/// accounts, or either of its first two account indices is out of range
/// for the resolved key list.
pub open spec fn ix_skipped(ix: InstructionView, keys: Seq<Seq<u8>>) -> bool {
    ||| ix.accounts.len() < 2
    ||| ix.accounts[0] as int >= keys.len()
    ||| ix.accounts[1] as int >= keys.len()
}

/// The all-zero amount used when a snapshot carries no amount sub-record.
pub open spec fn default_amount() -> TokenAmountView {
    TokenAmountView { decimals: 0, amount: 0, ui_amount_string: Seq::empty() }
}

/// The amount a snapshot reports: its sub-record, or all-zero when the
/// sub-record is missing.
pub open spec fn snapshot_amount(b: TokenBalanceView) -> TokenAmountView {
    match b.ui_token_amount {
        Some(a) => a,
        None => default_amount(),
    }
}

/// The owner identity an instruction's change is attributed to: the
/// snapshot's owner when a snapshot exists for the token-account index,
/// else the second referenced account as a fallback.
pub open spec fn candidate_owner(
    ix: InstructionView,
    keys: Seq<Seq<u8>>,
    balances: Seq<TokenBalanceView>,
) -> Seq<u8> {
    match first_balance_for(balances, ix.accounts[0] as u32) {
        Some(b) => b.owner,
        None => keys[ix.accounts[1] as int],
    }
}

/// The change record one instruction produces. With a snapshot, amount,
/// decimals, display amount, owner and mint all come from the snapshot;
/// without one, the amounts are zero and both owner and mint fall back to
/// the second referenced account. The delegate is never set and the frozen
/// flag is never raised.
pub open spec fn candidate_change(
    ix: InstructionView,
    keys: Seq<Seq<u8>>,
    balances: Seq<TokenBalanceView>,
    network: i32,
    sig: Seq<u8>,
    slot: i64,
) -> ChangeView {
    let address = keys[ix.accounts[0] as int];
    match first_balance_for(balances, ix.accounts[0] as u32) {
        Some(b) => {
            let a = snapshot_amount(b);
            ChangeView {
                address: pubkey_base58_of(address),
                network,
                owner: pubkey_base58_of(b.owner),
                mint: pubkey_base58_of(b.mint),
                amount: dec_str(a.amount as nat),
                decimals: a.decimals as i32,
                ui_amount: a.ui_amount_string,
                delegate: None,
                is_frozen: false,
                last_updated_signature: signature_base58_of(sig),
                last_updated_slot: slot,
            }
        },
        None => {
            let fallback = keys[ix.accounts[1] as int];
            ChangeView {
                address: pubkey_base58_of(address),
                network,
                owner: pubkey_base58_of(fallback),
                mint: pubkey_base58_of(fallback),
                amount: dec_str(0),
                decimals: 0,
                ui_amount: seq!['0'],
                delegate: None,
                is_frozen: false,
                last_updated_signature: signature_base58_of(sig),
                last_updated_slot: slot,
            }
        },
    }
}

/// The owner list collected from the first `n` bucket instructions: one
/// owner per instruction the parser does not skip, in instruction order.
pub open spec fn owners_upto(
    ixs: Seq<InstructionView>,
    keys: Seq<Seq<u8>>,
    balances: Seq<TokenBalanceView>,
    n: int,
) -> Seq<Seq<u8>>
    decreases n,
{
    if n <= 0 {
        Seq::empty()
    } else {
        owners_upto(ixs, keys, balances, n - 1) + if ix_skipped(ixs[n - 1], keys) {
            Seq::empty()
        } else {
            seq![candidate_owner(ixs[n - 1], keys, balances)]
        }
    }
}

/// The candidate held under address `k` after decoding the first `n`
/// bucket instructions: the last instruction writing `k` wins.
pub open spec fn candidate_map_upto(
    ixs: Seq<InstructionView>,
    keys: Seq<Seq<u8>>,
    balances: Seq<TokenBalanceView>,
    network: i32,
    sig: Seq<u8>,
    slot: i64,
    n: int,
    k: Seq<u8>,
) -> Option<(Seq<u8>, ChangeView)>
    decreases n,
{
    if n <= 0 {
        None
    } else {
        let prev = candidate_map_upto(ixs, keys, balances, network, sig, slot, n - 1, k);
        if ix_skipped(ixs[n - 1], keys) {
            prev
        } else if keys[ixs[n - 1].accounts[0] as int] == k {
            Some(
                (
                    candidate_owner(ixs[n - 1], keys, balances),
                    candidate_change(ixs[n - 1], keys, balances, network, sig, slot),
                ),
            )
        } else {
            prev
        }
    }
}

/// The first position of `o` in the collected owner list, or -1 when it
/// does not occur.
pub open spec fn first_pos(owners: Seq<Seq<u8>>, o: Seq<u8>) -> int
    decreases owners.len(),
{
    if owners.len() == 0 {
        -1
    } else if owners[0] == o {
        0
    } else {
        let p = first_pos(owners.drop_first(), o);
        if p < 0 {
            -1
        } else {
            p + 1
        }
    }
}

proof fn lemma_first_pos_from(owners: Seq<Seq<u8>>, o: Seq<u8>, i: int)
    requires
        0 <= i <= owners.len(),
        forall|j: int| 0 <= j < i ==> owners[j] != o,
    ensures
        i == owners.len() ==> first_pos(owners, o) == -1,
        i < owners.len() && owners[i] == o ==> first_pos(owners, o) == i,
    decreases owners.len(),
{
    if owners.len() == 0 {
    } else if owners[0] == o {
    } else {
        let rest = owners.drop_first();
        let i2 = if i > 0 {
            i - 1
        } else {
            0
        };
        assert(forall|j: int| 0 <= j < i2 ==> rest[j] == owners[j + 1]);
        lemma_first_pos_from(rest, o, i2);
    }
}

/// Whether an owner passes the batched relevance answer: the flag at its
/// first position in the queried owner list, with a missing flag treated
/// as not relevant (fail-closed).
pub open spec fn owner_relevant(o: Seq<u8>, owners: Seq<Seq<u8>>, flags: Seq<bool>) -> bool {
    let p = first_pos(owners, o);
    0 <= p < flags.len() && flags[p]
}

/// What survives the relevance filter for one address: the candidate's
/// change exactly when its owner passes.
pub open spec fn filtered_change(
    cand: Option<(Seq<u8>, ChangeView)>,
    owners: Seq<Seq<u8>>,
    flags: Seq<bool>,
) -> Option<ChangeView> {
    match cand {
        Some((o, c)) => if owner_relevant(o, owners, flags) {
            Some(c)
        } else {
            None
        },
        None => None,
    }
}

/// The first position of `o` among the listed owners.
fn find_first_pos(owners: &Vec<AccountId>, o: &AccountId) -> (r: Option<usize>)
    ensures
        match r {
            Some(p) => first_pos(key_views(owners@), o@) == p as int,
            None => first_pos(key_views(owners@), o@) == -1,
        },
{
    let n = owners.len();
    let mut i: usize = 0;
    while i < n
        invariant
            i <= n,
            n == owners@.len(),
            forall|j: int| 0 <= j < i ==> key_views(owners@)[j] != o@,
        decreases n - i,
    {
        if owners[i] == *o {
            proof {
                assert(key_views(owners@)[i as int] == o@);
                lemma_first_pos_from(key_views(owners@), o@, i as int);
            }
            return Some(i);
        }
        i += 1;
    }
    proof {
        lemma_first_pos_from(key_views(owners@), o@, n as int);
    }
    None
}

/// Builds one change record from already-resolved values, rendering the
/// identities in base58 and the amount in decimal.
fn create_token_account_change(
    address: AccountId,
    network: i32,
    owner: AccountId,
    mint: AccountId,
    amount: u64,
    decimals: i32,
    ui_amount: String,
    delegate: Option<AccountId>,
    is_frozen: bool,
    last_updated_signature: &SignatureId,
    last_updated_slot: i64,
) -> (r: TokenAccountChange)
    ensures
        r@ == (ChangeView {
            address: pubkey_base58_of(address@),
            network,
            owner: pubkey_base58_of(owner@),
            mint: pubkey_base58_of(mint@),
            amount: dec_str(amount as nat),
            decimals,
            ui_amount: ui_amount@,
            delegate: match delegate {
                Some(d) => Some(pubkey_base58_of(d@)),
                None => None,
            },
            is_frozen,
            last_updated_signature: signature_base58_of(last_updated_signature@),
            last_updated_slot,
        }),
{
    let r = TokenAccountChange {
        address: pubkey_to_base58(&address),
        network,
        owner: pubkey_to_base58(&owner),
        mint: pubkey_to_base58(&mint),
        amount: u64_to_string(amount),
        decimals,
        ui_amount,
        delegate: match &delegate {
            Some(d) => Some(pubkey_to_base58(d)),
            None => None,
        },
        is_frozen,
        last_updated_signature: signature_to_base58(last_updated_signature),
        last_updated_slot,
    };
    proof {
        assert(r@ =~= (ChangeView {
            address: pubkey_base58_of(address@),
            network,
            owner: pubkey_base58_of(owner@),
            mint: pubkey_base58_of(mint@),
            amount: dec_str(amount as nat),
            decimals,
            ui_amount: ui_amount@,
            delegate: match delegate {
                Some(d) => Some(pubkey_base58_of(d@)),
                None => None,
            },
            is_frozen,
            last_updated_signature: signature_base58_of(last_updated_signature@),
            last_updated_slot,
        }));
    }
    r
}

/// Applies the batched relevance answer to the collected candidates: a
/// candidate survives exactly when the flag at its owner's first position
/// in the queried owner list is true. An empty flag list — the fail-closed
/// reading of a failed oracle call — drops everything.
pub fn apply_relevance(candidates: CandidateMap, owners: &Vec<AccountId>, flags: &Vec<bool>) -> (r:
    ChangeMap)
    requires
        candidates.wf(),
    ensures
        r.wf(),
        forall|k: Seq<u8>|
            #[trigger] r.spec_get(k) == filtered_change(
                candidates.spec_get(k),
                key_views(owners@),
                flags@,
            ),
        flags@.len() == 0 ==> r.spec_is_empty(),
{
    let ghost ownersv = key_views(owners@);
    let ghost flagsv = flags@;
    let mut out = ChangeMap::new();
    let n = candidates.entries.len();
    let mut i: usize = 0;
    while i < n
        invariant
            i <= n,
            n == candidates.entries@.len(),
            candidates.wf(),
            out.wf(),
            ownersv == key_views(owners@),
            flagsv == flags@,
            forall|j: int|
                0 <= j < i ==> #[trigger] out.spec_get(candidates.entries@[j].address@)
                    == filtered_change(
                    Some(
                        (candidates.entries@[j].owner@, candidates.entries@[j].change@),
                    ),
                    ownersv,
                    flagsv,
                ),
            forall|k: Seq<u8>|
                (forall|j: int| 0 <= j < i ==> candidates.entries@[j].address@ != k)
                    ==> #[trigger] out.spec_get(k) is None,
            flagsv.len() == 0 ==> out.spec_is_empty(),
        decreases n - i,
    {
        let entry = &candidates.entries[i];
        let pos = find_first_pos(owners, &entry.owner);
        let relevant = match pos {
            Some(p) => p < flags.len() && flags[p],
            None => false,
        };
        proof {
            assert(relevant == owner_relevant(entry.owner@, ownersv, flagsv));
        }
        if relevant {
            out.insert(entry.address, entry.change.clone());
        }
        i += 1;
    }
    proof {
        assert forall|k: Seq<u8>| #[trigger] out.spec_get(k) == filtered_change(
            candidates.spec_get(k),
            ownersv,
            flagsv,
        ) by {
            if candidates.spec_get(k) is Some {
                let s = candidates.entries@;
                lemma_candidate_at_witness(s, k);
                let j = choose|j: int|
                    0 <= j < s.len() && s[j].address@ == k
                        && #[trigger] crate::candidates::candidate_at(s, k) == Some(
                        (s[j].owner@, s[j].change@),
                    );
                assert(out.spec_get(s[j].address@) == filtered_change(
                    Some((s[j].owner@, s[j].change@)),
                    ownersv,
                    flagsv,
                ));
            } else {
                assert forall|j: int| 0 <= j < n implies candidates.entries@[j].address@
                    != k by {
                    if candidates.entries@[j].address@ == k {
                        lemma_candidate_at_occurs(candidates.entries@, k, j);
                    }
                }
            }
        }
    }
    out
}

/// The parser for token-program instructions.
pub struct TokenProgramParser {}

impl Default for TokenProgramParser {
    fn default() -> Self {
        Self::new()
    }
}

impl TokenProgramParser {
    pub fn new() -> Self {
        TokenProgramParser {}
    }
}

/// The token parser's output: the relevance-filtered change mapping of one
/// transaction.
pub struct TokenProgramParsingResult {
    pub token_account_changes: ChangeMap,
}

impl Default for TokenProgramParsingResult {
    fn default() -> (r: Self)
        ensures
            r.token_account_changes.wf(),
            r.token_account_changes.spec_is_empty(),
    {
        Self::new()
    }
}

impl TokenProgramParsingResult {
    pub fn new() -> (r: Self)
        ensures
            r.token_account_changes.wf(),
            r.token_account_changes.spec_is_empty(),
            forall|k: Seq<u8>| #[trigger] r.token_account_changes.spec_get(k) is None,
    {
        TokenProgramParsingResult { token_account_changes: ChangeMap::new() }
    }
}

impl ExtendQueueEntry for TokenProgramParsingResult {
    open spec fn delta(&self) -> ChangeMap {
        self.token_account_changes
    }

    fn extend_queue_entry(self, queue_entry: &mut QueueEntry) {
        queue_entry.token_account_changes.extend_from(self.token_account_changes);
    }
}

/// The change the parser leaves under address `k` for this combination of
/// queue entry, network, oracle state and instruction buckets; `None` both
/// when there is no token-program bucket and when nothing survives at `k`.
pub open spec fn parse_outcome_at(
    queue_entry: &QueueEntry,
    network: i32,
    client: &LocalRedisEmulator,
    instructions: &InstructionsByProgram,
    k: Seq<u8>,
) -> Option<ChangeView> {
    match instructions.spec_get(token_program_key()) {
        None => None,
        Some(bucket) => {
            let keysv = key_views(account_keys_spec(&queue_entry.transaction));
            let balv = balance_views(queue_entry.transaction.meta.post_token_balances@);
            let owners = owners_upto(bucket, keysv, balv, bucket.len() as int);
            let flags = owners.map_values(|o: Seq<u8>| oracle_flag(client, o));
            filtered_change(
                candidate_map_upto(
                    bucket,
                    keysv,
                    balv,
                    network,
                    queue_entry.signature@,
                    queue_entry.slot as i64,
                    bucket.len() as int,
                    k,
                ),
                owners,
                flags,
            )
        },
    }
}

impl TokenProgramParser {
    /// Decodes the token-program instruction bucket of one transaction into
    /// candidate changes, batches one relevance query over the collected
    /// owners, and returns the surviving changes; `Ok(None)` when there is
    /// no token-program bucket (in which case no oracle query is made) or
    /// when nothing survives the filter.
    pub fn parse_transaction(
        &self,
        queue_entry: &QueueEntry,
        network: i32,
        redis_client: &LocalRedisEmulator,
        instructions: &InstructionsByProgram,
    ) -> (r: Result<Option<ParsingResult>, ParseError>)
        ensures
            r is Ok,
            r matches Ok(opt) ==> match opt {
                None => forall|k: Seq<u8>|
                    #[trigger] parse_outcome_at(queue_entry, network, redis_client, instructions, k)
                        is None,
                Some(pr) => pr matches ParsingResult::Token(tr) && tr.token_account_changes.wf()
                    && !tr.token_account_changes.spec_is_empty() && (forall|k: Seq<u8>|
                    #[trigger] tr.token_account_changes.spec_get(k) == parse_outcome_at(
                        queue_entry,
                        network,
                        redis_client,
                        instructions,
                        k,
                    )),
            },
    {
        let account_keys = queue_entry.transaction.get_account_keys();
        let token_key = token_program_id();
        let bucket = match instructions.get(&token_key) {
            Some(b) => b,
            None => {
                return Ok(None);
            },
        };
        let ghost bucketv = instruction_views(bucket@);
        let ghost keysv = key_views(account_keys_spec(&queue_entry.transaction));
        let ghost balv = balance_views(queue_entry.transaction.meta.post_token_balances@);
        let ghost sigv = queue_entry.signature@;
        let slot_i64: i64 = queue_entry.slot as i64;
        let mut candidates = CandidateMap::new();
        let mut owners: Vec<AccountId> = Vec::new();
        let n = bucket.len();
        let mut i: usize = 0;
        while i < n
            invariant
                i <= n,
                n == bucket@.len(),
                bucketv == instruction_views(bucket@),
                account_keys@ == account_keys_spec(&queue_entry.transaction),
                keysv == key_views(account_keys@),
                balv == balance_views(queue_entry.transaction.meta.post_token_balances@),
                sigv == queue_entry.signature@,
                slot_i64 == queue_entry.slot as i64,
                candidates.wf(),
                candidates.entries@.len() <= owners@.len(),
                key_views(owners@) == owners_upto(bucketv, keysv, balv, i as int),
                forall|k: Seq<u8>|
                    #[trigger] candidates.spec_get(k) == candidate_map_upto(
                        bucketv,
                        keysv,
                        balv,
                        network,
                        sigv,
                        slot_i64,
                        i as int,
                        k,
                    ),
            decreases n - i,
        {
            let ix = &bucket[i];
            proof {
                assert(bucketv[i as int] == ix@);
            }
            let skip: bool = if ix.accounts.len() < 2 {
                true
            } else {
                let t_idx = ix.accounts[0] as usize;
                let o_idx = ix.accounts[1] as usize;
                t_idx >= account_keys.len() || o_idx >= account_keys.len()
            };
            if skip {
                proof {
                    assert(ix_skipped(bucketv[i as int], keysv));
                    assert(key_views(owners@) =~= owners_upto(
                        bucketv,
                        keysv,
                        balv,
                        i + 1,
                    ));
                    assert forall|k: Seq<u8>| #[trigger] candidates.spec_get(k)
                        == candidate_map_upto(
                        bucketv,
                        keysv,
                        balv,
                        network,
                        sigv,
                        slot_i64,
                        i + 1,
                        k,
                    ) by {}
                }
                i += 1;
                continue ;
            }
            let t_idx = ix.accounts[0] as usize;
            let o_idx = ix.accounts[1] as usize;
            let token_account_address = account_keys[t_idx];
            let owner_address = account_keys[o_idx];
            proof {
                assert(!ix_skipped(bucketv[i as int], keysv));
                assert(keysv[t_idx as int] == token_account_address@);
                assert(keysv[o_idx as int] == owner_address@);
            }
            let balances = &queue_entry.transaction.meta.post_token_balances;
            let nb = balances.len();
            let mut b: usize = 0;
            while b < nb && balances[b].account_index != (t_idx as u32)
                invariant
                    b <= nb,
                    nb == balances@.len(),
                    balv == balance_views(balances@),
                    t_idx < 256,
                    forall|j: int| 0 <= j < b ==> balv[j].account_index != t_idx as u32,
                decreases nb - b,
            {
                b += 1;
            }
            proof {
                lemma_first_balance_from(balv, t_idx as u32, b as int);
            }
            let (amount, decimals, ui_amount, owner, mint): (
                u64,
                i32,
                String,
                AccountId,
                AccountId,
            ) = if b < nb {
                let bal = &balances[b];
                proof {
                    assert(balv[b as int] == bal@);
                    assert(first_balance_for(balv, t_idx as u32) == Some(bal@));
                }
                match &bal.ui_token_amount {
                    Some(ta) => (
                        ta.amount,
                        #[verifier::truncate] (ta.decimals as i32),
                        ta.ui_amount_string.clone(),
                        bal.owner,
                        bal.mint,
                    ),
                    None => (0u64, 0i32, String::new(), bal.owner, bal.mint),
                }
            } else {
                proof {
                    assert(first_balance_for(balv, t_idx as u32) is None);
                }
                (0u64, 0i32, String::from_str("0"), owner_address, owner_address)
            };
            proof {
                assert(owner@ == candidate_owner(bucketv[i as int], keysv, balv));
            }
            owners.push(owner);
            proof {
                assert(key_views(owners@) =~= owners_upto(bucketv, keysv, balv, i + 1));
            }
            let entry = create_token_account_change(
                token_account_address,
                network,
                owner,
                mint,
                amount,
                decimals,
                ui_amount,
                None,
                false,
                &queue_entry.signature,
                slot_i64,
            );
            proof {
                reveal_strlit("0");
                assert("0"@ =~= seq!['0']);
                assert(entry@ =~= candidate_change(
                    bucketv[i as int],
                    keysv,
                    balv,
                    network,
                    sigv,
                    slot_i64,
                ));
            }
            candidates.insert(token_account_address, owner, entry);
            proof {
                assert forall|k: Seq<u8>| #[trigger] candidates.spec_get(k)
                    == candidate_map_upto(
                    bucketv,
                    keysv,
                    balv,
                    network,
                    sigv,
                    slot_i64,
                    i + 1,
                    k,
                ) by {}
            }
            i += 1;
        }
        let ghost ownersv = owners_upto(bucketv, keysv, balv, n as int);
        let ghost flagsv = ownersv.map_values(|o: Seq<u8>| oracle_flag(redis_client, o));
        let filtered: ChangeMap = if owners.len() > 0 {
            let flags = match redis_client.batch_check_token_account_owners(&owners) {
                Ok(f) => f,
                Err(_) => {
                    // The emulator's contract rules this arm out; a caller
                    // driving a fallible oracle goes through
                    // `apply_relevance` with whatever answer it has.
                    proof {
                        assert(false);
                    }
                    Vec::new()
                },
            };
            proof {
                assert(flags@ =~= flagsv);
            }
            apply_relevance(candidates, &owners, &flags)
        } else {
            let out = ChangeMap::new();
            proof {
                assert forall|k: Seq<u8>| #[trigger] out.spec_get(k) == filtered_change(
                    candidates.spec_get(k),
                    ownersv,
                    flagsv,
                ) by {
                    assert(candidates.entries@.len() == 0);
                    assert(candidates.spec_get(k) is None);
                }
            }
            out
        };
        proof {
            assert forall|k: Seq<u8>| #[trigger] filtered.spec_get(k) == parse_outcome_at(
                queue_entry,
                network,
                redis_client,
                instructions,
                k,
            ) by {}
        }
        if filtered.is_empty() {
            proof {
                filtered.lemma_empty_iff_none();
                assert forall|k: Seq<u8>|
                    #[trigger] parse_outcome_at(queue_entry, network, redis_client, instructions, k)
                        is None by {
                    assert(filtered.spec_get(k) is None);
                    assert(filtered.spec_get(k) == parse_outcome_at(
                        queue_entry,
                        network,
                        redis_client,
                        instructions,
                        k,
                    ));
                }
            }
            return Ok(None);
        }
        let result = TokenProgramParsingResult { token_account_changes: filtered };
        Ok(Some(ParsingResult::Token(result)))
    }
}

impl crate::parser_trait::ProgramParser for TokenProgramParser {
    fn parse_transaction(
        &self,
        queue_entry: &QueueEntry,
        network: i32,
        redis_client: &LocalRedisEmulator,
        instructions: &InstructionsByProgram,
    ) -> Result<Option<ParsingResult>, ParseError> {
        TokenProgramParser::parse_transaction(
            self,
            queue_entry,
            network,
            redis_client,
            instructions,
        )
    }
}

} // verus!
