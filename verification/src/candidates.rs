//! Candidate token-account changes collected while decoding a transaction,
//! before the relevance filter runs: each change is paired with the owner
//! identity it was attributed to, so the batched relevance answer can be
//! applied without re-deriving the owner.

use vstd::pervasive::VecAdditionalExecFns;
use vstd::prelude::*;

use crate::account::AccountId;
use crate::token_accounts::ChangeView;
use crate::token_accounts::TokenAccountChange;

verus! {

/// One candidate change: the token account's address, the owner identity
/// used for the relevance check, and the change record itself.
pub struct CandidateEntry {
    pub address: AccountId,
    pub owner: AccountId,
    pub change: TokenAccountChange,
}

/// The lookup a candidate list denotes: the owner and change stored under
/// the first entry whose address has byte value `k`, if any.
pub open spec fn candidate_at(s: Seq<CandidateEntry>, k: Seq<u8>) -> Option<
    (Seq<u8>, ChangeView),
>
    decreases s.len(),
{
    if s.len() == 0 {
        None
    } else if s[0].address@ == k {
        Some((s[0].owner@, s[0].change@))
    } else {
        candidate_at(s.drop_first(), k)
    }
}

proof fn lemma_candidate_at_index(s: Seq<CandidateEntry>, k: Seq<u8>, i: int)
    requires
        0 <= i <= s.len(),
        forall|j: int| 0 <= j < i ==> s[j].address@ != k,
    ensures
        i == s.len() ==> candidate_at(s, k) is None,
        i < s.len() && s[i].address@ == k ==> candidate_at(s, k) == Some(
            (s[i].owner@, s[i].change@),
        ),
    decreases s.len(),
{
    if s.len() == 0 {
    } else if s[0].address@ == k {
    } else {
        let rest = s.drop_first();
        let i2 = if i > 0 {
            i - 1
        } else {
            0
        };
        assert(forall|j: int| 0 <= j < i2 ==> rest[j] == s[j + 1]);
        lemma_candidate_at_index(rest, k, i2);
    }
}

/// An address that occurs in the list is found by the lookup.
pub proof fn lemma_candidate_at_occurs(s: Seq<CandidateEntry>, k: Seq<u8>, i: int)
    requires
        0 <= i < s.len(),
        s[i].address@ == k,
    ensures
        candidate_at(s, k) is Some,
    decreases s.len(),
{
    if s[0].address@ == k {
    } else {
        let rest = s.drop_first();
        assert(rest[i - 1] == s[i]);
        lemma_candidate_at_occurs(rest, k, i - 1);
    }
}

/// A successful lookup is witnessed by the first entry holding the address.
pub proof fn lemma_candidate_at_witness(s: Seq<CandidateEntry>, k: Seq<u8>)
    requires
        candidate_at(s, k) is Some,
    ensures
        exists|j: int|
            0 <= j < s.len() && s[j].address@ == k && #[trigger] candidate_at(s, k) == Some(
                (s[j].owner@, s[j].change@),
            ),
    decreases s.len(),
{
    if s[0].address@ == k {
        assert(0 <= 0 < s.len() && s[0].address@ == k && candidate_at(s, k) == Some(
            (s[0].owner@, s[0].change@),
        ));
    } else {
        let rest = s.drop_first();
        lemma_candidate_at_witness(rest, k);
        let j = choose|j: int|
            0 <= j < rest.len() && rest[j].address@ == k && #[trigger] candidate_at(rest, k)
                == Some((rest[j].owner@, rest[j].change@));
        assert(s[j + 1] == rest[j]);
        assert(0 <= j + 1 < s.len() && s[j + 1].address@ == k && candidate_at(s, k) == Some(
            (s[j + 1].owner@, s[j + 1].change@),
        ));
    }
}

proof fn lemma_candidate_at_update(
    s: Seq<CandidateEntry>,
    i: int,
    e: CandidateEntry,
    key: Seq<u8>,
)
    requires
        0 <= i < s.len(),
        forall|j: int| 0 <= j < i ==> s[j].address@ != key,
        s[i].address@ == key,
        e.address@ == key,
    ensures
        forall|k: Seq<u8>|
            k != key ==> #[trigger] candidate_at(s.update(i, e), k) == candidate_at(s, k),
        candidate_at(s.update(i, e), key) == Some((e.owner@, e.change@)),
    decreases s.len(),
{
    let t = s.update(i, e);
    if i == 0 {
        assert(t[0] == e);
        assert(t.drop_first() =~= s.drop_first());
        assert forall|k: Seq<u8>| k != key implies #[trigger] candidate_at(t, k)
            == candidate_at(s, k) by {
            assert(t[0].address@ == key);
            assert(s[0].address@ == key);
        }
    } else {
        assert(t[0] == s[0]);
        assert(t.drop_first() =~= s.drop_first().update(i - 1, e));
        let rest = s.drop_first();
        assert(forall|j: int| 0 <= j < i - 1 ==> rest[j] == s[j + 1]);
        lemma_candidate_at_update(rest, i - 1, e, key);
        assert(s[0].address@ != key);
        assert forall|k: Seq<u8>| k != key implies #[trigger] candidate_at(t, k)
            == candidate_at(s, k) by {
            if t[0].address@ == k {
            } else {
                assert(candidate_at(t, k) == candidate_at(t.drop_first(), k));
                assert(candidate_at(s, k) == candidate_at(rest, k));
            }
        }
        assert(candidate_at(t, key) == candidate_at(t.drop_first(), key));
    }
}

proof fn lemma_candidate_at_push(s: Seq<CandidateEntry>, e: CandidateEntry, key: Seq<u8>)
    requires
        e.address@ == key,
    ensures
        forall|k: Seq<u8>|
            k != key ==> #[trigger] candidate_at(s.push(e), k) == candidate_at(s, k),
        candidate_at(s, key) is None ==> candidate_at(s.push(e), key) == Some(
            (e.owner@, e.change@),
        ),
    decreases s.len(),
{
    let t = s.push(e);
    if s.len() == 0 {
        assert(t[0] == e);
        assert(t.drop_first() =~= Seq::<CandidateEntry>::empty());
        assert forall|k: Seq<u8>| k != key implies #[trigger] candidate_at(t, k)
            == candidate_at(s, k) by {
            assert(candidate_at(t, k) == candidate_at(t.drop_first(), k));
        }
    } else {
        assert(t[0] == s[0]);
        assert(t.drop_first() =~= s.drop_first().push(e));
        lemma_candidate_at_push(s.drop_first(), e, key);
        assert forall|k: Seq<u8>| k != key implies #[trigger] candidate_at(t, k)
            == candidate_at(s, k) by {
            if t[0].address@ != k {
                assert(candidate_at(t, k) == candidate_at(t.drop_first(), k));
                assert(candidate_at(s, k) == candidate_at(s.drop_first(), k));
            }
        }
        if candidate_at(s, key) is None {
            assert(s[0].address@ != key);
            assert(candidate_at(t, key) == candidate_at(t.drop_first(), key));
        }
    }
}

/// The candidate changes of one transaction, keyed by token-account
/// address; inserting an address already present overwrites its entry
/// (last instruction wins).
pub struct CandidateMap {
    pub entries: Vec<CandidateEntry>,
}

impl CandidateMap {
    /// Each address occurs at most once.
    pub open spec fn wf(&self) -> bool {
        forall|i: int, j: int|
            0 <= i < j < self.entries@.len() ==> self.entries@[i].address@
                != self.entries@[j].address@
    }

    /// The owner and change stored under address `k`, if any.
    pub open spec fn spec_get(&self, k: Seq<u8>) -> Option<(Seq<u8>, ChangeView)> {
        candidate_at(self.entries@, k)
    }

    /// An empty candidate collection.
    pub fn new() -> (r: CandidateMap)
        ensures
            r.wf(),
            r.entries@.len() == 0,
            forall|k: Seq<u8>| #[trigger] r.spec_get(k) is None,
    {
        CandidateMap { entries: Vec::new() }
    }

    /// Records a candidate for `address`, overwriting any candidate already
    /// held for it.
    pub fn insert(&mut self, address: AccountId, owner: AccountId, change: TokenAccountChange)
        requires
            old(self).wf(),
        ensures
            final(self).wf(),
            final(self).entries@.len() >= 1,
            final(self).entries@.len() <= old(self).entries@.len() + 1,
            final(self).spec_get(address@) == Some((owner@, change@)),
            forall|k: Seq<u8>|
                k != address@ ==> #[trigger] final(self).spec_get(k) == old(self).spec_get(k),
    {
        let entry = CandidateEntry { address, owner, change };
        let n = self.entries.len();
        let mut i: usize = 0;
        while i < n && !(self.entries[i].address == address)
            invariant
                i <= n,
                n == self.entries@.len(),
                self == old(self),
                forall|j: int| 0 <= j < i ==> self.entries@[j].address@ != address@,
            decreases n - i,
        {
            i += 1;
        }
        proof {
            lemma_candidate_at_index(self.entries@, address@, i as int);
        }
        if i < n {
            let ghost olds = self.entries@;
            let mut slot: CandidateEntry = entry;
            self.entries.set_and_swap(i, &mut slot);
            proof {
                assert(self.entries@ =~= olds.update(i as int, self.entries@[i as int]));
                lemma_candidate_at_update(olds, i as int, self.entries@[i as int], address@);
            }
        } else {
            let ghost olds = self.entries@;
            self.entries.push(entry);
            proof {
                lemma_candidate_at_push(olds, self.entries@[olds.len() as int], address@);
            }
        }
    }
}

} // verus!
