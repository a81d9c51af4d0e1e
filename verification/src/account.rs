//! Account and signature identities: fixed-width byte values that serve as
//! map keys and are rendered in base58 for display.

use vstd::prelude::*;

verus! {

/// The base58 rendering of a 32-byte account address, exactly as
/// `solana_pubkey`'s `Display` writes it; a function of the bytes alone.
pub uninterp spec fn pubkey_base58_of(bytes: Seq<u8>) -> Seq<char>;

/// The base58 rendering of a 64-byte signature, exactly as
/// `solana_signature`'s `Display` writes it; a function of the bytes alone.
pub uninterp spec fn signature_base58_of(bytes: Seq<u8>) -> Seq<char>;

/// A fixed-width public-key value identifying an account.
///
/// Instruction account references are indices into a per-transaction list of
/// these; equality is byte-wise.
#[derive(Clone, Copy, Debug)]
pub struct AccountId {
    pub bytes: [u8; 32],
}

impl View for AccountId {
    type V = Seq<u8>;

    open spec fn view(&self) -> Seq<u8> {
        self.bytes@
    }
}

impl AccountId {
    pub fn new(bytes: [u8; 32]) -> (r: AccountId)
        ensures
            r@ == bytes@,
    {
        AccountId { bytes }
    }
}

impl Default for AccountId {
    /// The all-zero account identity.
    fn default() -> (r: AccountId)
        ensures
            forall|i: int| 0 <= i < 32 ==> r@[i] == 0,
    {
        AccountId { bytes: [0; 32] }
    }
}

impl PartialEq for AccountId {
    fn eq(&self, other: &AccountId) -> (r: bool) {
        let mut i: usize = 0;
        while i < 32
            invariant
                i <= 32,
                forall|j: int| 0 <= j < i ==> self.bytes@[j] == other.bytes@[j],
            decreases 32 - i,
        {
            if self.bytes[i] != other.bytes[i] {
                assert(self@[i as int] != other@[i as int]);
                return false;
            }
            i += 1;
        }
        proof {
            assert(self@ =~= other@);
        }
        true
    }
}

impl vstd::std_specs::cmp::PartialEqSpecImpl for AccountId {
    open spec fn obeys_eq_spec() -> bool {
        true
    }

    open spec fn eq_spec(&self, other: &AccountId) -> bool {
        self@ == other@
    }
}

/// A fixed-width transaction signature value.
#[derive(Clone, Copy, Debug)]
pub struct SignatureId {
    pub bytes: [u8; 64],
}

impl View for SignatureId {
    type V = Seq<u8>;

    open spec fn view(&self) -> Seq<u8> {
        self.bytes@
    }
}

impl SignatureId {
    pub fn new(bytes: [u8; 64]) -> (r: SignatureId)
        ensures
            r@ == bytes@,
    {
        SignatureId { bytes }
    }
}

impl Default for SignatureId {
    /// The all-zero signature.
    fn default() -> (r: SignatureId)
        ensures
            forall|i: int| 0 <= i < 64 ==> r@[i] == 0,
    {
        SignatureId { bytes: [0; 64] }
    }
}

impl PartialEq for SignatureId {
    fn eq(&self, other: &SignatureId) -> (r: bool) {
        let mut i: usize = 0;
        while i < 64
            invariant
                i <= 64,
                forall|j: int| 0 <= j < i ==> self.bytes@[j] == other.bytes@[j],
            decreases 64 - i,
        {
            if self.bytes[i] != other.bytes[i] {
                assert(self@[i as int] != other@[i as int]);
                return false;
            }
            i += 1;
        }
        proof {
            assert(self@ =~= other@);
        }
        true
    }
}

impl vstd::std_specs::cmp::PartialEqSpecImpl for SignatureId {
    open spec fn obeys_eq_spec() -> bool {
        true
    }

    open spec fn eq_spec(&self, other: &SignatureId) -> bool {
        self@ == other@
    }
}

/// Relies on `solana_pubkey::Pubkey`'s `Display` impl, which writes the
/// base58 form of the 32 address bytes.
#[verifier::external_body]
pub(crate) fn pubkey_to_base58(id: &AccountId) -> (r: String)
    ensures
        r@ == pubkey_base58_of(id@),
{
    solana_pubkey::Pubkey::new_from_array(id.bytes).to_string()
}

/// Relies on `solana_signature::Signature`'s `Display` impl, which writes the
/// base58 form of the 64 signature bytes.
#[verifier::external_body]
pub(crate) fn signature_to_base58(sig: &SignatureId) -> (r: String)
    ensures
        r@ == signature_base58_of(sig@),
{
    solana_signature::Signature::from(sig.bytes).to_string()
}

} // verus!
