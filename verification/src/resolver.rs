//! The instruction resolver: computes the canonical account-key list of a
//! transaction and linearizes top-level and inner instructions into call
//! order, with inner instructions placed immediately after their parent.
//!
//! This component never fails: absent or malformed fields degrade to empty
//! results.

use vstd::prelude::*;

use crate::account::AccountId;
use crate::transaction::CompiledInstruction;
use crate::transaction::InnerGroupView;
use crate::transaction::InnerInstruction;
use crate::transaction::InnerInstructions;
use crate::transaction::InnerInstructionView;
use crate::transaction::InstructionView;
use crate::transaction::UnifiedTransaction;

verus! {

/// The views of a sequence of compiled instructions.
pub open spec fn instruction_views(s: Seq<CompiledInstruction>) -> Seq<InstructionView> {
    s.map_values(|c: CompiledInstruction| c@)
}

/// The byte views of a sequence of account keys.
pub open spec fn key_views(keys: Seq<AccountId>) -> Seq<Seq<u8>> {
    keys.map_values(|k: AccountId| k@)
}

/// The canonical account-key list of a transaction: the base message keys,
/// then the loaded writable addresses, then the loaded read-only addresses.
/// An absent message resolves to the empty list.
pub open spec fn account_keys_spec(tx: &UnifiedTransaction) -> Seq<AccountId> {
    match tx.transaction.message {
        Some(m) => m.account_keys@ + tx.meta.loaded_writable_addresses@
            + tx.meta.loaded_readonly_addresses@,
        None => Seq::empty(),
    }
}

/// The top-level instructions of a transaction, as views; empty when the
/// message is absent.
pub open spec fn message_instruction_views(tx: &UnifiedTransaction) -> Seq<InstructionView> {
    match tx.transaction.message {
        Some(m) => instruction_views(m.instructions@),
        None => Seq::empty(),
    }
}

/// The inner-instruction groups of a transaction, as views.
pub open spec fn inner_group_views(tx: &UnifiedTransaction) -> Seq<InnerGroupView> {
    tx.meta.inner_instructions@.map_values(|g: InnerInstructions| g@)
}

/// The first inner-instruction group recorded under the given parent
/// position, if any.
pub open spec fn first_group_for(groups: Seq<InnerGroupView>, parent: u32) -> Option<
    InnerGroupView,
>
    decreases groups.len(),
{
    if groups.len() == 0 {
        None
    } else if groups[0].index == parent {
        Some(groups[0])
    } else {
        first_group_for(groups.drop_first(), parent)
    }
}

/// The inner instructions emitted after the top-level instruction at the
/// given position: the first matching group's instructions in order,
/// converted to the compiled shape, or nothing when no group matches.
pub open spec fn inner_block_for(groups: Seq<InnerGroupView>, parent: u32) -> Seq<
    InstructionView,
> {
    match first_group_for(groups, parent) {
        Some(g) => g.instructions.map_values(|x: InnerInstructionView| x.as_instruction()),
        None => Seq::empty(),
    }
}

/// The call-ordered flattening of the first `n` top-level instructions: each
/// one followed immediately by its inner-instruction block.
pub open spec fn flatten_upto(
    msg: Seq<InstructionView>,
    groups: Seq<InnerGroupView>,
    n: int,
) -> Seq<InstructionView>
    decreases n,
{
    if n <= 0 {
        Seq::empty()
    } else {
        flatten_upto(msg, groups, n - 1) + seq![msg[n - 1]] + inner_block_for(
            groups,
            (n - 1) as u32,
        )
    }
}

/// The full call-ordered instruction sequence of a transaction.
pub open spec fn flattened_spec(tx: &UnifiedTransaction) -> Seq<InstructionView> {
    flatten_upto(
        message_instruction_views(tx),
        inner_group_views(tx),
        message_instruction_views(tx).len() as int,
    )
}

/// If no group before position `g` matches `parent`, the first matching
/// group is the one at `g` when it matches, and none exists when `g` runs
/// off the end.
pub proof fn lemma_first_group_from(groups: Seq<InnerGroupView>, parent: u32, g: int)
    requires
        0 <= g <= groups.len(),
        forall|k: int| 0 <= k < g ==> groups[k].index != parent,
    ensures
        g == groups.len() ==> first_group_for(groups, parent) is None,
        g < groups.len() && groups[g].index == parent ==> first_group_for(groups, parent)
            == Some(groups[g]),
    decreases groups.len(),
{
    if groups.len() == 0 {
    } else if groups[0].index == parent {
    } else {
        let rest = groups.drop_first();
        let g2 = if g > 0 {
            g - 1
        } else {
            0
        };
        assert(forall|k: int| 0 <= k < g2 ==> rest[k] == groups[k + 1]);
        lemma_first_group_from(rest, parent, g2);
    }
}

/// The views of a sequence of (parent index, inner instruction) pairs.
pub open spec fn inner_pair_views(s: Seq<(u32, InnerInstruction)>) -> Seq<
    (u32, InnerInstructionView),
> {
    s.map_values(|p: (u32, InnerInstruction)| (p.0, p.1@))
}

/// The views of a sequence of (position, compiled instruction) pairs.
pub open spec fn position_pair_views(s: Seq<(usize, CompiledInstruction)>) -> Seq<
    (usize, InstructionView),
> {
    s.map_values(|p: (usize, CompiledInstruction)| (p.0, p.1@))
}

/// All inner instructions from group position `i` on, each paired with its
/// group's parent index, in group order.
pub open spec fn inner_flat_from(groups: Seq<InnerGroupView>, i: int) -> Seq<
    (u32, InnerInstructionView),
>
    decreases groups.len() - i,
{
    if i < 0 || i >= groups.len() {
        Seq::empty()
    } else {
        groups[i].instructions.map_values(|x: InnerInstructionView| (groups[i].index, x))
            + inner_flat_from(groups, i + 1)
    }
}

/// Whether a flattened instruction's owning program resolves and belongs to
/// the given program set; an empty set matches every resolvable program.
pub open spec fn flat_keep(
    ix: InstructionView,
    keys: Seq<Seq<u8>>,
    programs: Seq<Seq<u8>>,
) -> bool {
    &&& ix.program_id_index < keys.len()
    &&& (programs.len() == 0 || programs.contains(keys[ix.program_id_index as int]))
}

/// The positions and instructions among the first `n` flattened
/// instructions whose owning program is in the program set.
pub open spec fn flat_filter_upto(
    flat: Seq<InstructionView>,
    keys: Seq<Seq<u8>>,
    programs: Seq<Seq<u8>>,
    n: int,
) -> Seq<(usize, InstructionView)>
    decreases n,
{
    if n <= 0 {
        Seq::empty()
    } else {
        flat_filter_upto(flat, keys, programs, n - 1) + if flat_keep(flat[n - 1], keys, programs) {
            seq![(((n - 1) as usize), flat[n - 1])]
        } else {
            Seq::empty()
        }
    }
}

/// Whether an inner instruction's owning program resolves and is one of the
/// given programs.
pub open spec fn inner_keep(
    p: (u32, InnerInstructionView),
    keys: Seq<Seq<u8>>,
    programs: Seq<Seq<u8>>,
) -> bool {
    &&& p.1.program_id_index < keys.len()
    &&& programs.contains(keys[p.1.program_id_index as int])
}

/// The subsequence of the first `n` paired inner instructions whose owning
/// program is one of the given programs.
pub open spec fn inner_filter_upto(
    flat: Seq<(u32, InnerInstructionView)>,
    keys: Seq<Seq<u8>>,
    programs: Seq<Seq<u8>>,
    n: int,
) -> Seq<(u32, InnerInstructionView)>
    decreases n,
{
    if n <= 0 {
        Seq::empty()
    } else {
        inner_filter_upto(flat, keys, programs, n - 1) + if inner_keep(
            flat[n - 1],
            keys,
            programs,
        ) {
            seq![flat[n - 1]]
        } else {
            Seq::empty()
        }
    }
}

/// Whether `k` is the byte value of one of the listed keys.
pub(crate) fn keys_contain(list: &[AccountId], k: &AccountId) -> (r: bool)
    ensures
        r == key_views(list@).contains(k@),
{
    let n = list.len();
    let mut i: usize = 0;
    while i < n
        invariant
            i <= n,
            n == list@.len(),
            forall|j: int| 0 <= j < i ==> key_views(list@)[j] != k@,
        decreases n - i,
    {
        if list[i] == *k {
            proof {
                assert(key_views(list@)[i as int] == k@);
            }
            return true;
        }
        i += 1;
    }
    proof {
        assert(forall|j: int| 0 <= j < key_views(list@).len() ==> key_views(list@)[j] != k@);
        assert(!key_views(list@).contains(k@));
    }
    false
}

impl UnifiedTransaction {
    /// Resolves the complete account-key list of the transaction: base
    /// message keys, then loaded writable addresses, then loaded read-only
    /// addresses. Returns the empty list when the message is absent.
    pub fn get_account_keys(&self) -> (r: Vec<AccountId>)
        ensures
            r@ == account_keys_spec(self),
    {
        let mut all: Vec<AccountId> = Vec::new();
        let message = match &self.transaction.message {
            Some(m) => m,
            None => {
                proof {
                    assert(all@ =~= account_keys_spec(self));
                }
                return all;
            },
        };
        let mut i: usize = 0;
        while i < message.account_keys.len()
            invariant
                i <= message.account_keys.len(),
                all@ == message.account_keys@.take(i as int),
            decreases message.account_keys.len() - i,
        {
            all.push(message.account_keys[i]);
            proof {
                assert(all@ =~= message.account_keys@.take(i + 1));
            }
            i += 1;
        }
        proof {
            assert(message.account_keys@.take(message.account_keys@.len() as int)
                =~= message.account_keys@);
        }
        let mut i: usize = 0;
        while i < self.meta.loaded_writable_addresses.len()
            invariant
                i <= self.meta.loaded_writable_addresses.len(),
                all@ == message.account_keys@ + self.meta.loaded_writable_addresses@.take(
                    i as int,
                ),
            decreases self.meta.loaded_writable_addresses.len() - i,
        {
            all.push(self.meta.loaded_writable_addresses[i]);
            proof {
                assert(all@ =~= message.account_keys@
                    + self.meta.loaded_writable_addresses@.take(i + 1));
            }
            i += 1;
        }
        proof {
            assert(message.account_keys@ + self.meta.loaded_writable_addresses@.take(
                self.meta.loaded_writable_addresses@.len() as int,
            ) =~= message.account_keys@ + self.meta.loaded_writable_addresses@);
        }
        let mut i: usize = 0;
        while i < self.meta.loaded_readonly_addresses.len()
            invariant
                i <= self.meta.loaded_readonly_addresses.len(),
                all@ == message.account_keys@ + self.meta.loaded_writable_addresses@
                    + self.meta.loaded_readonly_addresses@.take(i as int),
            decreases self.meta.loaded_readonly_addresses.len() - i,
        {
            all.push(self.meta.loaded_readonly_addresses[i]);
            proof {
                assert(all@ =~= message.account_keys@ + self.meta.loaded_writable_addresses@
                    + self.meta.loaded_readonly_addresses@.take(i + 1));
            }
            i += 1;
        }
        proof {
            assert(all@ =~= account_keys_spec(self));
        }
        all
    }

    /// Flattens the transaction's instructions into a single call-ordered
    /// sequence: each top-level instruction in message order, immediately
    /// followed by its inner instructions (converted to the compiled shape,
    /// dropping the stack-height hint).
    pub fn get_all_instructions_ordered(&self) -> (r: Vec<CompiledInstruction>)
        ensures
            instruction_views(r@) == flattened_spec(self),
    {
        let mut all: Vec<CompiledInstruction> = Vec::new();
        let message = match &self.transaction.message {
            Some(m) => m,
            None => {
                proof {
                    assert(instruction_views(all@) =~= flattened_spec(self));
                }
                return all;
            },
        };
        let groups = &self.meta.inner_instructions;
        let ghost msgv = message_instruction_views(self);
        let ghost groupsv = inner_group_views(self);
        let n = message.instructions.len();
        let mut i: usize = 0;
        while i < n
            invariant
                i <= n,
                n == message.instructions.len(),
                msgv == message_instruction_views(self),
                groupsv == inner_group_views(self),
                msgv == instruction_views(message.instructions@),
                groupsv == groups@.map_values(|g: InnerInstructions| g@),
                groups == &self.meta.inner_instructions,
                instruction_views(all@) == flatten_upto(msgv, groupsv, i as int),
            decreases n - i,
        {
            all.push(message.instructions[i].clone());
            proof {
                assert(instruction_views(all@) =~= flatten_upto(msgv, groupsv, i as int)
                    + seq![msgv[i as int]]);
            }
            let parent: u32 = #[verifier::truncate] (i as u32);
            let ng = groups.len();
            let mut g: usize = 0;
            while g < ng && groups[g].index != parent
                invariant
                    g <= ng,
                    ng == groups.len(),
                    groupsv == groups@.map_values(|gr: InnerInstructions| gr@),
                    forall|k: int| 0 <= k < g ==> groupsv[k].index != parent,
                decreases ng - g,
            {
                g += 1;
            }
            proof {
                lemma_first_group_from(groupsv, parent, g as int);
            }
            if g < ng {
                let inner_list = &groups[g].instructions;
                let ghost blockv = inner_block_for(groupsv, parent);
                proof {
                    assert(first_group_for(groupsv, parent) == Some(groupsv[g as int]));
                    assert(blockv == groupsv[g as int].instructions.map_values(
                        |x: InnerInstructionView| x.as_instruction(),
                    ));
                    assert(groupsv[g as int].instructions == inner_list@.map_values(
                        |x: InnerInstruction| x@,
                    ));
                }
                let m = inner_list.len();
                let mut j: usize = 0;
                while j < m
                    invariant
                        j <= m,
                        m == inner_list.len(),
                        inner_list == &groups@[g as int].instructions,
                        g < groups.len(),
                        blockv == inner_list@.map_values(|x: InnerInstruction| x@).map_values(
                            |x: InnerInstructionView| x.as_instruction(),
                        ),
                        instruction_views(all@) == flatten_upto(msgv, groupsv, i as int)
                            + seq![msgv[i as int]] + blockv.take(j as int),
                        msgv == message_instruction_views(self),
                        groupsv == inner_group_views(self),
                        i < n,
                        n == msgv.len(),
                    decreases m - j,
                {
                    let iix = &inner_list[j];
                    let compiled = CompiledInstruction {
                        program_id_index: iix.program_id_index,
                        accounts: iix.accounts.clone(),
                        data: iix.data.clone(),
                    };
                    proof {
                        assert(compiled.accounts@ =~= iix.accounts@);
                        assert(compiled.data@ =~= iix.data@);
                        assert(compiled@ =~= blockv[j as int]);
                    }
                    let ghost before = all@;
                    all.push(compiled);
                    proof {
                        assert(all@ == before.push(compiled));
                        assert(instruction_views(all@) =~= instruction_views(before).push(
                            compiled@,
                        ));
                        assert(blockv.take(j + 1) =~= blockv.take(j as int).push(
                            blockv[j as int],
                        ));
                        assert(instruction_views(all@) =~= flatten_upto(msgv, groupsv, i as int)
                            + seq![msgv[i as int]] + blockv.take(j + 1));
                    }
                    j += 1;
                }
                proof {
                    assert(blockv.take(m as int) =~= blockv);
                    assert(instruction_views(all@) =~= flatten_upto(msgv, groupsv, i + 1));
                }
            } else {
                proof {
                    assert(first_group_for(groupsv, parent) is None);
                    assert(inner_block_for(groupsv, parent) =~= Seq::<InstructionView>::empty());
                    assert(instruction_views(all@) =~= flatten_upto(msgv, groupsv, i + 1));
                }
            }
            i += 1;
        }
        proof {
            assert(instruction_views(all@) == flattened_spec(self));
        }
        all
    }

    /// Flattens all inner instructions into a single sequence, each paired
    /// with the index of its parent top-level instruction, in group order.
    pub fn get_all_inner_instructions(&self) -> (r: Vec<(u32, InnerInstruction)>)
        ensures
            inner_pair_views(r@) == inner_flat_from(inner_group_views(self), 0),
    {
        let mut out: Vec<(u32, InnerInstruction)> = Vec::new();
        let groups = &self.meta.inner_instructions;
        let ghost groupsv = inner_group_views(self);
        let n = groups.len();
        let mut i: usize = 0;
        while i < n
            invariant
                i <= n,
                n == groups@.len(),
                groups == &self.meta.inner_instructions,
                groupsv == inner_group_views(self),
                groupsv == groups@.map_values(|g: InnerInstructions| g@),
                inner_flat_from(groupsv, 0) == inner_pair_views(out@) + inner_flat_from(
                    groupsv,
                    i as int,
                ),
            decreases n - i,
        {
            let group = &groups[i];
            let idx = group.index;
            let ghost base = inner_pair_views(out@);
            let ghost gview = groupsv[i as int];
            proof {
                assert(gview.instructions == group.instructions@.map_values(
                    |x: InnerInstruction| x@,
                ));
                assert(gview.index == idx);
            }
            let m = group.instructions.len();
            let mut j: usize = 0;
            while j < m
                invariant
                    j <= m,
                    m == group.instructions@.len(),
                    gview.instructions == group.instructions@.map_values(
                        |x: InnerInstruction| x@,
                    ),
                    gview.index == idx,
                    inner_pair_views(out@) == base + gview.instructions.map_values(
                        |x: InnerInstructionView| (idx, x),
                    ).take(j as int),
                decreases m - j,
            {
                let item = (idx, group.instructions[j].clone());
                let ghost before = out@;
                out.push(item);
                proof {
                    let mapped = gview.instructions.map_values(
                        |x: InnerInstructionView| (idx, x),
                    );
                    assert(item.1@ == gview.instructions[j as int]);
                    assert(inner_pair_views(out@) =~= inner_pair_views(before).push(
                        (idx, item.1@),
                    ));
                    assert(mapped.take(j + 1) =~= mapped.take(j as int).push(mapped[j as int]));
                    assert(inner_pair_views(out@) =~= base + mapped.take(j + 1));
                }
                j += 1;
            }
            proof {
                let mapped = gview.instructions.map_values(|x: InnerInstructionView| (idx, x));
                assert(mapped.take(m as int) =~= mapped);
                assert(groupsv[i as int].instructions.map_values(
                    |x: InnerInstructionView| (groupsv[i as int].index, x),
                ) =~= mapped);
                assert(inner_flat_from(groupsv, i as int) == mapped + inner_flat_from(
                    groupsv,
                    i + 1,
                ));
                assert(inner_pair_views(out@) + inner_flat_from(groupsv, i + 1)
                    =~= inner_flat_from(groupsv, 0));
            }
            i += 1;
        }
        proof {
            assert(inner_flat_from(groupsv, n as int) =~= Seq::<(u32, InnerInstructionView)>::empty());
            assert(inner_pair_views(out@) =~= inner_pair_views(out@) + inner_flat_from(
                groupsv,
                n as int,
            ));
        }
        out
    }

    /// Filters the paired inner instructions down to those whose own
    /// resolved program is one of `program_ids`; an instruction whose
    /// program index is out of range for the resolved key list is skipped.
    pub fn get_all_inner_instructions_by_programs(&self, program_ids: &[AccountId]) -> (r: Vec<
        (u32, InnerInstruction),
    >)
        ensures
            inner_pair_views(r@) == inner_filter_upto(
                inner_flat_from(inner_group_views(self), 0),
                key_views(account_keys_spec(self)),
                key_views(program_ids@),
                inner_flat_from(inner_group_views(self), 0).len() as int,
            ),
    {
        let all_inner = self.get_all_inner_instructions();
        let account_keys = self.get_account_keys();
        let ghost flatv = inner_flat_from(inner_group_views(self), 0);
        let ghost keysv = key_views(account_keys_spec(self));
        let ghost progv = key_views(program_ids@);
        let mut out: Vec<(u32, InnerInstruction)> = Vec::new();
        let n = all_inner.len();
        let mut i: usize = 0;
        while i < n
            invariant
                i <= n,
                n == all_inner@.len(),
                inner_pair_views(all_inner@) == flatv,
                account_keys@ == account_keys_spec(self),
                keysv == key_views(account_keys_spec(self)),
                progv == key_views(program_ids@),
                inner_pair_views(out@) == inner_filter_upto(flatv, keysv, progv, i as int),
            decreases n - i,
        {
            let pidx = all_inner[i].1.program_id_index as usize;
            proof {
                assert(flatv[i as int] == (all_inner@[i as int].0, all_inner@[i as int].1@));
            }
            if pidx < account_keys.len() && keys_contain(program_ids, &account_keys[pidx]) {
                proof {
                    assert(keysv[pidx as int] == account_keys@[pidx as int]@);
                }
                let item = (all_inner[i].0, all_inner[i].1.clone());
                let ghost before = out@;
                out.push(item);
                proof {
                    assert(inner_pair_views(out@) =~= inner_pair_views(before).push(
                        (item.0, item.1@),
                    ));
                    assert(inner_keep(flatv[i as int], keysv, progv));
                    assert(inner_pair_views(out@) =~= inner_filter_upto(
                        flatv,
                        keysv,
                        progv,
                        i + 1,
                    ));
                }
            } else {
                proof {
                    assert(!inner_keep(flatv[i as int], keysv, progv));
                    assert(inner_pair_views(out@) =~= inner_filter_upto(
                        flatv,
                        keysv,
                        progv,
                        i + 1,
                    ));
                }
            }
            i += 1;
        }
        out
    }

    /// Filters the call-ordered flattened sequence down to the instructions
    /// whose owning program is in `program_ids` (an empty list matches every
    /// resolvable program), pairing each with its position in the flattened
    /// sequence. Instructions whose program index is out of range for the
    /// resolved key list are skipped.
    pub fn get_all_instructions_by_programs(&self, program_ids: Vec<AccountId>) -> (r: Vec<
        (usize, CompiledInstruction),
    >)
        ensures
            position_pair_views(r@) == flat_filter_upto(
                flattened_spec(self),
                key_views(account_keys_spec(self)),
                key_views(program_ids@),
                flattened_spec(self).len() as int,
            ),
    {
        let all_instructions = self.get_all_instructions_ordered();
        let account_keys = self.get_account_keys();
        let ghost flatv = flattened_spec(self);
        let ghost keysv = key_views(account_keys_spec(self));
        let ghost progv = key_views(program_ids@);
        let mut out: Vec<(usize, CompiledInstruction)> = Vec::new();
        let n = all_instructions.len();
        let mut i: usize = 0;
        while i < n
            invariant
                i <= n,
                n == all_instructions@.len(),
                instruction_views(all_instructions@) == flatv,
                account_keys@ == account_keys_spec(self),
                keysv == key_views(account_keys_spec(self)),
                progv == key_views(program_ids@),
                position_pair_views(out@) == flat_filter_upto(flatv, keysv, progv, i as int),
            decreases n - i,
        {
            let pidx = all_instructions[i].program_id_index as usize;
            proof {
                assert(flatv[i as int] == all_instructions@[i as int]@);
            }
            let keep = pidx < account_keys.len() && (program_ids.len() == 0 || keys_contain(
                program_ids.as_slice(),
                &account_keys[pidx],
            ));
            proof {
                if pidx < account_keys.len() {
                    assert(keysv[pidx as int] == account_keys@[pidx as int]@);
                }
                assert(keep == flat_keep(flatv[i as int], keysv, progv));
            }
            if keep {
                let item = (i, all_instructions[i].clone());
                let ghost before = out@;
                out.push(item);
                proof {
                    assert(position_pair_views(out@) =~= position_pair_views(before).push(
                        (i, item.1@),
                    ));
                    assert(position_pair_views(out@) =~= flat_filter_upto(
                        flatv,
                        keysv,
                        progv,
                        i + 1,
                    ));
                }
            } else {
                proof {
                    assert(position_pair_views(out@) =~= flat_filter_upto(
                        flatv,
                        keysv,
                        progv,
                        i + 1,
                    ));
                }
            }
            i += 1;
        }
        out
    }
}

} // verus!
