//! The parser's output unit: the observed state of one token account after
//! a transaction.

use vstd::prelude::*;

verus! {

/// A token account's observed balance and owner state after a transaction.
///
/// Produced fresh per transaction and never mutated after insertion into
/// the result map. The delegate and frozen state are intentionally left
/// unset by the token parser.
pub struct TokenAccountChange {
    pub address: String,
    pub network: i32,
    pub owner: String,
    pub mint: String,
    pub amount: String,
    pub decimals: i32,
    pub ui_amount: String,
    pub delegate: Option<String>,
    pub is_frozen: bool,
    pub last_updated_signature: String,
    pub last_updated_slot: i64,
}

/// The mathematical value of a token-account change.
#[verifier::ext_equal]
pub ghost struct ChangeView {
    pub address: Seq<char>,
    pub network: i32,
    pub owner: Seq<char>,
    pub mint: Seq<char>,
    pub amount: Seq<char>,
    pub decimals: i32,
    pub ui_amount: Seq<char>,
    pub delegate: Option<Seq<char>>,
    pub is_frozen: bool,
    pub last_updated_signature: Seq<char>,
    pub last_updated_slot: i64,
}

impl View for TokenAccountChange {
    type V = ChangeView;

    open spec fn view(&self) -> ChangeView {
        ChangeView {
            address: self.address@,
            network: self.network,
            owner: self.owner@,
            mint: self.mint@,
            amount: self.amount@,
            decimals: self.decimals,
            ui_amount: self.ui_amount@,
            delegate: match self.delegate {
                Some(d) => Some(d@),
                None => None,
            },
            is_frozen: self.is_frozen,
            last_updated_signature: self.last_updated_signature@,
            last_updated_slot: self.last_updated_slot,
        }
    }
}

impl Clone for TokenAccountChange {
    fn clone(&self) -> (r: Self)
        ensures
            r@ == self@,
    {
        let r = TokenAccountChange {
            address: self.address.clone(),
            network: self.network,
            owner: self.owner.clone(),
            mint: self.mint.clone(),
            amount: self.amount.clone(),
            decimals: self.decimals,
            ui_amount: self.ui_amount.clone(),
            delegate: match &self.delegate {
                Some(d) => Some(d.clone()),
                None => None,
            },
            is_frozen: self.is_frozen,
            last_updated_signature: self.last_updated_signature.clone(),
            last_updated_slot: self.last_updated_slot,
        };
        proof {
            assert(r@ =~= self@);
        }
        r
    }
}

impl PartialEq for TokenAccountChange {
    fn eq(&self, other: &TokenAccountChange) -> (r: bool) {
        let delegate_eq = match (&self.delegate, &other.delegate) {
            (Some(a), Some(b)) => *a == *b,
            (None, None) => true,
            _ => false,
        };
        let r = self.address == other.address && self.network == other.network && self.owner
            == other.owner && self.mint == other.mint && self.amount == other.amount
            && self.decimals == other.decimals && self.ui_amount == other.ui_amount
            && delegate_eq && self.is_frozen == other.is_frozen && self.last_updated_signature
            == other.last_updated_signature && self.last_updated_slot
            == other.last_updated_slot;
        proof {
            if r {
                assert(self@ =~= other@);
            }
        }
        r
    }
}

impl vstd::std_specs::cmp::PartialEqSpecImpl for TokenAccountChange {
    open spec fn obeys_eq_spec() -> bool {
        true
    }

    open spec fn eq_spec(&self, other: &TokenAccountChange) -> bool {
        self@ == other@
    }
}

} // verus!
