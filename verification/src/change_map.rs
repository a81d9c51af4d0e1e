//! The per-transaction change mapping: account identity to token-account
//! change, with later writes for the same address overwriting earlier ones.

use vstd::pervasive::VecAdditionalExecFns;
use vstd::prelude::*;

use crate::account::AccountId;
use crate::token_accounts::ChangeView;
use crate::token_accounts::TokenAccountChange;

verus! {

/// The lookup an association list denotes: the change stored under the
/// first entry whose address has byte value `k`, if any.
pub open spec fn change_at(
    s: Seq<(AccountId, TokenAccountChange)>,
    k: Seq<u8>,
) -> Option<ChangeView>
    decreases s.len(),
{
    if s.len() == 0 {
        None
    } else if s[0].0@ == k {
        Some(s[0].1@)
    } else {
        change_at(s.drop_first(), k)
    }
}

proof fn lemma_change_at_index(s: Seq<(AccountId, TokenAccountChange)>, k: Seq<u8>, i: int)
    requires
        0 <= i <= s.len(),
        forall|j: int| 0 <= j < i ==> s[j].0@ != k,
    ensures
        i == s.len() ==> change_at(s, k) is None,
        i < s.len() && s[i].0@ == k ==> change_at(s, k) == Some(s[i].1@),
    decreases s.len(),
{
    if s.len() == 0 {
    } else if s[0].0@ == k {
    } else {
        let rest = s.drop_first();
        let i2 = if i > 0 {
            i - 1
        } else {
            0
        };
        assert(forall|j: int| 0 <= j < i2 ==> rest[j] == s[j + 1]);
        lemma_change_at_index(rest, k, i2);
    }
}

/// A key that occurs in the list is found by the lookup.
proof fn lemma_change_at_occurs(s: Seq<(AccountId, TokenAccountChange)>, k: Seq<u8>, i: int)
    requires
        0 <= i < s.len(),
        s[i].0@ == k,
    ensures
        change_at(s, k) is Some,
    decreases s.len(),
{
    if s[0].0@ == k {
    } else {
        let rest = s.drop_first();
        assert(rest[i - 1] == s[i]);
        lemma_change_at_occurs(rest, k, i - 1);
    }
}

proof fn lemma_change_at_update(
    s: Seq<(AccountId, TokenAccountChange)>,
    i: int,
    e: (AccountId, TokenAccountChange),
    key: Seq<u8>,
)
    requires
        0 <= i < s.len(),
        forall|j: int| 0 <= j < i ==> s[j].0@ != key,
        s[i].0@ == key,
        e.0@ == key,
    ensures
        forall|k: Seq<u8>|
            k != key ==> #[trigger] change_at(s.update(i, e), k) == change_at(s, k),
        change_at(s.update(i, e), key) == Some(e.1@),
    decreases s.len(),
{
    let t = s.update(i, e);
    if i == 0 {
        assert(t[0] == e);
        assert(t.drop_first() =~= s.drop_first());
        assert forall|k: Seq<u8>| k != key implies #[trigger] change_at(t, k) == change_at(
            s,
            k,
        ) by {
            assert(t[0].0@ == key);
            assert(s[0].0@ == key);
        }
    } else {
        assert(t[0] == s[0]);
        assert(t.drop_first() =~= s.drop_first().update(i - 1, e));
        let rest = s.drop_first();
        assert(forall|j: int| 0 <= j < i - 1 ==> rest[j] == s[j + 1]);
        lemma_change_at_update(rest, i - 1, e, key);
        assert(s[0].0@ != key);
        assert forall|k: Seq<u8>| k != key implies #[trigger] change_at(t, k) == change_at(
            s,
            k,
        ) by {
            if t[0].0@ == k {
            } else {
                assert(change_at(t, k) == change_at(t.drop_first(), k));
                assert(change_at(s, k) == change_at(rest, k));
            }
        }
        assert(change_at(t, key) == change_at(t.drop_first(), key));
    }
}

proof fn lemma_change_at_push(
    s: Seq<(AccountId, TokenAccountChange)>,
    e: (AccountId, TokenAccountChange),
    key: Seq<u8>,
)
    requires
        e.0@ == key,
    ensures
        forall|k: Seq<u8>| k != key ==> #[trigger] change_at(s.push(e), k) == change_at(s, k),
        change_at(s, key) is None ==> change_at(s.push(e), key) == Some(e.1@),
    decreases s.len(),
{
    let t = s.push(e);
    if s.len() == 0 {
        assert(t[0] == e);
        assert(t.drop_first() =~= Seq::<(AccountId, TokenAccountChange)>::empty());
        assert forall|k: Seq<u8>| k != key implies #[trigger] change_at(t, k) == change_at(
            s,
            k,
        ) by {
            assert(change_at(t, k) == change_at(t.drop_first(), k));
        }
    } else {
        assert(t[0] == s[0]);
        assert(t.drop_first() =~= s.drop_first().push(e));
        lemma_change_at_push(s.drop_first(), e, key);
        assert forall|k: Seq<u8>| k != key implies #[trigger] change_at(t, k) == change_at(
            s,
            k,
        ) by {
            if t[0].0@ != k {
                assert(change_at(t, k) == change_at(t.drop_first(), k));
                assert(change_at(s, k) == change_at(s.drop_first(), k));
            }
        }
        if change_at(s, key) is None {
            assert(s[0].0@ != key);
            assert(change_at(t, key) == change_at(t.drop_first(), key));
        }
    }
}

/// A mapping from account identity to token-account change, keyed by the
/// account's byte value; inserting an address that is already present
/// overwrites its change (last write wins).
pub struct ChangeMap {
    pub entries: Vec<(AccountId, TokenAccountChange)>,
}

impl ChangeMap {
    /// Each address occurs at most once.
    pub open spec fn wf(&self) -> bool {
        forall|i: int, j: int|
            0 <= i < j < self.entries@.len() ==> self.entries@[i].0@ != self.entries@[j].0@
    }

    /// The change stored under address `k`, if any.
    pub open spec fn spec_get(&self, k: Seq<u8>) -> Option<ChangeView> {
        change_at(self.entries@, k)
    }

    /// Whether the mapping holds no change at all.
    pub open spec fn spec_is_empty(&self) -> bool {
        self.entries@.len() == 0
    }

    /// An empty mapping.
    pub fn new() -> (r: ChangeMap)
        ensures
            r.wf(),
            r.spec_is_empty(),
            forall|k: Seq<u8>| #[trigger] r.spec_get(k) is None,
    {
        ChangeMap { entries: Vec::new() }
    }

    /// An empty mapping holds nothing; a non-empty one holds its first
    /// entry.
    pub proof fn lemma_empty_iff_none(&self)
        ensures
            self.spec_is_empty() <==> (forall|k: Seq<u8>| #[trigger] self.spec_get(k) is None),
    {
        if self.spec_is_empty() {
            assert forall|k: Seq<u8>| #[trigger] self.spec_get(k) is None by {}
        } else {
            lemma_change_at_occurs(self.entries@, self.entries@[0].0@, 0);
            assert(self.spec_get(self.entries@[0].0@) is Some);
        }
    }

    /// The number of addresses held.
    pub fn len(&self) -> (r: usize)
        ensures
            r == self.entries@.len(),
    {
        self.entries.len()
    }

    /// Inserts a change for `address`, overwriting any change already held
    /// for it.
    pub fn insert(&mut self, address: AccountId, change: TokenAccountChange)
        requires
            old(self).wf(),
        ensures
            final(self).wf(),
            !final(self).spec_is_empty(),
            final(self).spec_get(address@) == Some(change@),
            forall|k: Seq<u8>|
                k != address@ ==> #[trigger] final(self).spec_get(k) == old(self).spec_get(k),
    {
        let ghost changev = change@;
        let n = self.entries.len();
        let mut i: usize = 0;
        while i < n && !(self.entries[i].0 == address)
            invariant
                i <= n,
                n == self.entries@.len(),
                self == old(self),
                forall|j: int| 0 <= j < i ==> self.entries@[j].0@ != address@,
            decreases n - i,
        {
            i += 1;
        }
        proof {
            lemma_change_at_index(self.entries@, address@, i as int);
        }
        if i < n {
            let ghost olds = self.entries@;
            let mut entry: (AccountId, TokenAccountChange) = (address, change);
            self.entries.set_and_swap(i, &mut entry);
            proof {
                assert(self.entries@ =~= olds.update(
                    i as int,
                    (address, self.entries@[i as int].1),
                ));
                assert(self.entries@[i as int].1@ == changev);
                lemma_change_at_update(
                    olds,
                    i as int,
                    self.entries@[i as int],
                    address@,
                );
            }
        } else {
            let ghost olds = self.entries@;
            self.entries.push((address, change));
            proof {
                lemma_change_at_push(olds, self.entries@[olds.len() as int], address@);
            }
        }
    }

    /// Looks up the change stored for `address`.
    pub fn get(&self, address: &AccountId) -> (r: Option<&TokenAccountChange>)
        ensures
            match r {
                Some(c) => self.spec_get(address@) == Some(c@),
                None => self.spec_get(address@) is None,
            },
    {
        let n = self.entries.len();
        let mut i: usize = 0;
        while i < n && !(self.entries[i].0 == *address)
            invariant
                i <= n,
                n == self.entries@.len(),
                forall|j: int| 0 <= j < i ==> self.entries@[j].0@ != address@,
            decreases n - i,
        {
            i += 1;
        }
        proof {
            lemma_change_at_index(self.entries@, address@, i as int);
        }
        if i < n {
            Some(&self.entries[i].1)
        } else {
            None
        }
    }

    /// Whether the mapping holds no change.
    pub fn is_empty(&self) -> (r: bool)
        ensures
            r == self.spec_is_empty(),
    {
        self.entries.len() == 0
    }

    /// Merges `other` into this mapping: every address held by `other` takes
    /// `other`'s change, and every other address keeps its own.
    pub fn extend_from(&mut self, other: ChangeMap)
        requires
            old(self).wf(),
            other.wf(),
        ensures
            final(self).wf(),
            forall|k: Seq<u8>|
                #[trigger] final(self).spec_get(k) == match other.spec_get(k) {
                    Some(c) => Some(c),
                    None => old(self).spec_get(k),
                },
    {
        let n = other.entries.len();
        let mut i: usize = 0;
        while i < n
            invariant
                i <= n,
                n == other.entries@.len(),
                other.wf(),
                self.wf(),
                forall|j: int|
                    0 <= j < i ==> #[trigger] self.spec_get(other.entries@[j].0@) == Some(
                        other.entries@[j].1@,
                    ),
                forall|k: Seq<u8>|
                    (forall|j: int| 0 <= j < i ==> other.entries@[j].0@ != k)
                        ==> #[trigger] self.spec_get(k) == old(self).spec_get(k),
            decreases n - i,
        {
            let entry = &other.entries[i];
            let address = entry.0;
            let change = entry.1.clone();
            self.insert(address, change);
            i += 1;
        }
        proof {
            assert forall|k: Seq<u8>| #[trigger] self.spec_get(k) == match other.spec_get(k) {
                Some(c) => Some(c),
                None => old(self).spec_get(k),
            } by {
                if other.spec_get(k) is Some {
                    let s = other.entries@;
                    lemma_change_at_witness(s, k);
                    let j = choose|j: int|
                        0 <= j < s.len() && s[j].0@ == k && #[trigger] change_at(s, k) == Some(
                            s[j].1@,
                        );
                    assert(self.spec_get(s[j].0@) == Some(s[j].1@));
                } else {
                    assert forall|j: int| 0 <= j < n implies other.entries@[j].0@ != k by {
                        if other.entries@[j].0@ == k {
                            lemma_change_at_occurs(other.entries@, k, j);
                        }
                    }
                }
            }
        }
    }
}

/// A successful lookup is witnessed by the first entry holding the key.
proof fn lemma_change_at_witness(s: Seq<(AccountId, TokenAccountChange)>, k: Seq<u8>)
    requires
        change_at(s, k) is Some,
    ensures
        exists|j: int|
            0 <= j < s.len() && s[j].0@ == k && #[trigger] change_at(s, k) == Some(s[j].1@),
    decreases s.len(),
{
    if s[0].0@ == k {
        assert(0 <= 0 < s.len() && s[0].0@ == k && change_at(s, k) == Some(s[0].1@));
    } else {
        let rest = s.drop_first();
        lemma_change_at_witness(rest, k);
        let j = choose|j: int|
            0 <= j < rest.len() && rest[j].0@ == k && #[trigger] change_at(rest, k) == Some(
                rest[j].1@,
            );
        assert(s[j + 1] == rest[j]);
        assert(0 <= j + 1 < s.len() && s[j + 1].0@ == k && change_at(s, k) == Some(
            s[j + 1].1@,
        ));
    }
}

} // verus!
