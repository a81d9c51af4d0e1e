//! Instructions grouped by owning program: an insertion-ordered association
//! list from program identity to that program's instructions in call order.

use vstd::pervasive::VecAdditionalExecFns;
use vstd::prelude::*;

use crate::account::AccountId;
use crate::resolver::account_keys_spec;
use crate::resolver::flattened_spec;
use crate::resolver::instruction_views;
use crate::resolver::key_views;
use crate::transaction::CompiledInstruction;
use crate::transaction::InstructionView;
use crate::transaction::UnifiedTransaction;

verus! {

/// The lookup an association list denotes: the instructions stored under the
/// first entry whose key has byte value `k`, if any.
pub open spec fn get_from(
    s: Seq<(AccountId, Vec<CompiledInstruction>)>,
    k: Seq<u8>,
) -> Option<Seq<InstructionView>>
    decreases s.len(),
{
    if s.len() == 0 {
        None
    } else if s[0].0@ == k {
        Some(instruction_views(s[0].1@))
    } else {
        get_from(s.drop_first(), k)
    }
}

/// The instructions among the first `n` flattened instructions whose
/// resolved owning program has byte value `k`, in call order.
pub open spec fn bucket_upto(
    flat: Seq<InstructionView>,
    keys: Seq<Seq<u8>>,
    k: Seq<u8>,
    n: int,
) -> Seq<InstructionView>
    decreases n,
{
    if n <= 0 {
        Seq::empty()
    } else {
        bucket_upto(flat, keys, k, n - 1) + if flat[n - 1].program_id_index < keys.len() && keys[
            flat[n - 1].program_id_index as int
        ] == k {
            seq![flat[n - 1]]
        } else {
            Seq::empty()
        }
    }
}

/// The bucket a program identity maps to after grouping the first `n`
/// flattened instructions: present exactly when non-empty.
pub open spec fn bucket_opt_upto(
    flat: Seq<InstructionView>,
    keys: Seq<Seq<u8>>,
    k: Seq<u8>,
    n: int,
) -> Option<Seq<InstructionView>> {
    if bucket_upto(flat, keys, k, n).len() == 0 {
        None
    } else {
        Some(bucket_upto(flat, keys, k, n))
    }
}

/// The mapping from program identity to that program's instructions in call
/// order, for a whole transaction.
pub open spec fn buckets_spec(tx: &UnifiedTransaction, k: Seq<u8>) -> Option<
    Seq<InstructionView>,
> {
    bucket_opt_upto(
        flattened_spec(tx),
        key_views(account_keys_spec(tx)),
        k,
        flattened_spec(tx).len() as int,
    )
}

proof fn lemma_get_from_at(
    s: Seq<(AccountId, Vec<CompiledInstruction>)>,
    k: Seq<u8>,
    i: int,
)
    requires
        0 <= i <= s.len(),
        forall|j: int| 0 <= j < i ==> s[j].0@ != k,
    ensures
        i == s.len() ==> get_from(s, k) is None,
        i < s.len() && s[i].0@ == k ==> get_from(s, k) == Some(instruction_views(s[i].1@)),
    decreases s.len(),
{
    if s.len() == 0 {
    } else if s[0].0@ == k {
    } else {
        let rest = s.drop_first();
        let i2 = if i > 0 {
            i - 1
        } else {
            0
        };
        assert(forall|j: int| 0 <= j < i2 ==> rest[j] == s[j + 1]);
        lemma_get_from_at(rest, k, i2);
    }
}

proof fn lemma_get_from_update(
    s: Seq<(AccountId, Vec<CompiledInstruction>)>,
    i: int,
    e: (AccountId, Vec<CompiledInstruction>),
    key: Seq<u8>,
)
    requires
        0 <= i < s.len(),
        forall|j: int| 0 <= j < i ==> s[j].0@ != key,
        s[i].0@ == key,
        e.0@ == key,
    ensures
        forall|k: Seq<u8>| k != key ==> #[trigger] get_from(s.update(i, e), k) == get_from(s, k),
        get_from(s.update(i, e), key) == Some(instruction_views(e.1@)),
    decreases s.len(),
{
    let t = s.update(i, e);
    if i == 0 {
        assert(t[0] == e);
        assert(t.drop_first() =~= s.drop_first());
        assert forall|k: Seq<u8>| k != key implies #[trigger] get_from(t, k) == get_from(
            s,
            k,
        ) by {
            assert(t[0].0@ == key);
            assert(s[0].0@ == key);
        }
    } else {
        assert(t[0] == s[0]);
        assert(t.drop_first() =~= s.drop_first().update(i - 1, e));
        let rest = s.drop_first();
        assert(forall|j: int| 0 <= j < i - 1 ==> rest[j] == s[j + 1]);
        lemma_get_from_update(rest, i - 1, e, key);
        assert(s[0].0@ != key);
        assert forall|k: Seq<u8>| k != key implies #[trigger] get_from(t, k) == get_from(
            s,
            k,
        ) by {
            if t[0].0@ == k {
            } else {
                assert(get_from(t, k) == get_from(t.drop_first(), k));
                assert(get_from(s, k) == get_from(rest, k));
            }
        }
        assert(get_from(t, key) == get_from(t.drop_first(), key));
    }
}

proof fn lemma_get_from_push(
    s: Seq<(AccountId, Vec<CompiledInstruction>)>,
    e: (AccountId, Vec<CompiledInstruction>),
    key: Seq<u8>,
)
    requires
        e.0@ == key,
    ensures
        forall|k: Seq<u8>| k != key ==> #[trigger] get_from(s.push(e), k) == get_from(s, k),
        get_from(s, key) is None ==> get_from(s.push(e), key) == Some(
            instruction_views(e.1@),
        ),
    decreases s.len(),
{
    let t = s.push(e);
    if s.len() == 0 {
        assert(t[0] == e);
        assert(t.drop_first() =~= Seq::<(AccountId, Vec<CompiledInstruction>)>::empty());
        assert forall|k: Seq<u8>| k != key implies #[trigger] get_from(t, k) == get_from(
            s,
            k,
        ) by {
            assert(get_from(t, k) == get_from(t.drop_first(), k));
        }
    } else {
        assert(t[0] == s[0]);
        assert(t.drop_first() =~= s.drop_first().push(e));
        lemma_get_from_push(s.drop_first(), e, key);
        assert forall|k: Seq<u8>| k != key implies #[trigger] get_from(t, k) == get_from(
            s,
            k,
        ) by {
            if t[0].0@ != k {
                assert(get_from(t, k) == get_from(t.drop_first(), k));
                assert(get_from(s, k) == get_from(s.drop_first(), k));
            }
        }
        if get_from(s, key) is None {
            assert(s[0].0@ != key);
            assert(get_from(s.drop_first(), key) is None);
            assert(get_from(t, key) == get_from(t.drop_first(), key));
        }
    }
}

/// Instructions grouped by owning program, in call order within each group
/// and first-appearance order across groups.
pub struct InstructionsByProgram {
    pub entries: Vec<(AccountId, Vec<CompiledInstruction>)>,
}

impl InstructionsByProgram {
    /// The instructions recorded under program identity `k`, if any.
    pub open spec fn spec_get(&self, k: Seq<u8>) -> Option<Seq<InstructionView>> {
        get_from(self.entries@, k)
    }

    /// An empty grouping.
    pub fn new() -> (r: InstructionsByProgram)
        ensures
            forall|k: Seq<u8>| #[trigger] r.spec_get(k) is None,
    {
        InstructionsByProgram { entries: Vec::new() }
    }

    /// Appends `ix` to the bucket of program `key`, creating the bucket if
    /// this is the program's first instruction.
    pub fn push_to(&mut self, key: &AccountId, ix: CompiledInstruction)
        ensures
            forall|k: Seq<u8>|
                k != key@ ==> #[trigger] final(self).spec_get(k) == old(self).spec_get(k),
            final(self).spec_get(key@) == match old(self).spec_get(key@) {
                Some(s) => Some(s.push(ix@)),
                None => Some(seq![ix@]),
            },
    {
        let ghost ixv = ix@;
        let n = self.entries.len();
        let mut i: usize = 0;
        while i < n && !(self.entries[i].0 == *key)
            invariant
                i <= n,
                n == self.entries@.len(),
                self == old(self),
                forall|j: int| 0 <= j < i ==> self.entries@[j].0@ != key@,
            decreases n - i,
        {
            i += 1;
        }
        proof {
            lemma_get_from_at(self.entries@, key@, i as int);
        }
        if i < n {
            let ghost olds = self.entries@;
            let mut placeholder: (AccountId, Vec<CompiledInstruction>) = (
                AccountId::new([0; 32]),
                Vec::new(),
            );
            self.entries.set_and_swap(i, &mut placeholder);
            placeholder.1.push(ix);
            self.entries.set_and_swap(i, &mut placeholder);
            proof {
                let e = self.entries@[i as int];
                assert(e.0 == olds[i as int].0);
                assert(e.1@ == olds[i as int].1@.push(ix));
                assert(self.entries@ =~= olds.update(i as int, e));
                assert(instruction_views(e.1@) =~= instruction_views(
                    olds[i as int].1@,
                ).push(ixv));
                lemma_get_from_update(olds, i as int, e, key@);
            }
        } else {
            let ghost olds = self.entries@;
            let mut bucket: Vec<CompiledInstruction> = Vec::new();
            bucket.push(ix);
            let entry = (*key, bucket);
            proof {
                assert(instruction_views(entry.1@) =~= seq![ixv]);
            }
            self.entries.push(entry);
            proof {
                lemma_get_from_push(olds, entry, key@);
            }
        }
    }

    /// Looks up the bucket of program `key`.
    pub fn get(&self, key: &AccountId) -> (r: Option<&Vec<CompiledInstruction>>)
        ensures
            match r {
                Some(v) => self.spec_get(key@) == Some(instruction_views(v@)),
                None => self.spec_get(key@) is None,
            },
    {
        let n = self.entries.len();
        let mut i: usize = 0;
        while i < n && !(self.entries[i].0 == *key)
            invariant
                i <= n,
                n == self.entries@.len(),
                forall|j: int| 0 <= j < i ==> self.entries@[j].0@ != key@,
            decreases n - i,
        {
            i += 1;
        }
        proof {
            lemma_get_from_at(self.entries@, key@, i as int);
        }
        if i < n {
            Some(&self.entries[i].1)
        } else {
            None
        }
    }
}

impl UnifiedTransaction {
    /// Groups the call-ordered flattened instruction sequence by owning
    /// program: each instruction whose program index resolves is appended to
    /// its program's bucket, so every bucket keeps call order; instructions
    /// whose program index is out of range are silently skipped.
    pub fn get_instructions_by_program_id(&self) -> (r: InstructionsByProgram)
        ensures
            forall|k: Seq<u8>| #[trigger] r.spec_get(k) == buckets_spec(self, k),
    {
        let flat = self.get_all_instructions_ordered();
        let account_keys = self.get_account_keys();
        let ghost flatv = flattened_spec(self);
        let ghost keysv = key_views(account_keys_spec(self));
        let mut r = InstructionsByProgram::new();
        let n = flat.len();
        let mut i: usize = 0;
        while i < n
            invariant
                i <= n,
                n == flat@.len(),
                instruction_views(flat@) == flatv,
                account_keys@ == account_keys_spec(self),
                keysv == key_views(account_keys_spec(self)),
                forall|k: Seq<u8>| #[trigger] r.spec_get(k) == bucket_opt_upto(
                    flatv,
                    keysv,
                    k,
                    i as int,
                ),
            decreases n - i,
        {
            let pidx = flat[i].program_id_index as usize;
            proof {
                assert(flatv[i as int] == flat@[i as int]@);
            }
            if pidx < account_keys.len() {
                let key = account_keys[pidx];
                proof {
                    assert(keysv[pidx as int] == account_keys@[pidx as int]@);
                    assert(keysv[pidx as int] == key@);
                }
                let ix = flat[i].clone();
                r.push_to(&key, ix);
                proof {
                    assert forall|k: Seq<u8>| #[trigger] r.spec_get(k) == bucket_opt_upto(
                        flatv,
                        keysv,
                        k,
                        i + 1,
                    ) by {
                        if k == key@ {
                            assert(bucket_upto(flatv, keysv, k, i + 1) =~= bucket_upto(
                                flatv,
                                keysv,
                                k,
                                i as int,
                            ).push(flatv[i as int]));
                            if bucket_upto(flatv, keysv, k, i as int).len() == 0 {
                                assert(bucket_upto(flatv, keysv, k, i as int)
                                    =~= Seq::<InstructionView>::empty());
                                assert(bucket_upto(flatv, keysv, k, i + 1) =~= seq![
                                    flatv[i as int],
                                ]);
                            }
                        } else {
                            assert(bucket_upto(flatv, keysv, k, i + 1) =~= bucket_upto(
                                flatv,
                                keysv,
                                k,
                                i as int,
                            ));
                        }
                    }
                }
            } else {
                proof {
                    assert forall|k: Seq<u8>| #[trigger] r.spec_get(k) == bucket_opt_upto(
                        flatv,
                        keysv,
                        k,
                        i + 1,
                    ) by {
                        assert(bucket_upto(flatv, keysv, k, i + 1) =~= bucket_upto(
                            flatv,
                            keysv,
                            k,
                            i as int,
                        ));
                    }
                }
            }
            i += 1;
        }
        r
    }
}

} // verus!
