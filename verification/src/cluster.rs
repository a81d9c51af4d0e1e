//! The cluster a transaction was observed on, and its numeric network id.

use vstd::prelude::*;

verus! {

/// What `str::to_lowercase` returns for a string; a function of the
/// characters alone.
pub uninterp spec fn lower_of(s: Seq<char>) -> Seq<char>;

/// Relies on `str::to_lowercase`: the result depends on the characters
/// alone.
#[verifier::external_body]
fn lowercase(s: &str) -> (r: String)
    ensures
        r@ == lower_of(s@),
{
    s.to_lowercase()
}

/// A cluster name, parsed case-insensitively from user input.
#[derive(Clone, Copy, Debug, PartialEq, Eq, Structural, Hash)]
pub enum Cluster {
    Devnet,
    Mainnet,
}

/// The numeric network id of a cluster.
pub open spec fn network_id_spec(c: Cluster) -> i32 {
    match c {
        Cluster::Devnet => 0,
        Cluster::Mainnet => 1,
    }
}

impl Cluster {
    /// Parses a cluster name, ignoring case; any other input is rejected
    /// with a fixed message.
    pub fn from_str(s: &str) -> (r: Result<Cluster, String>)
        ensures
            lower_of(s@) == "devnet"@ ==> r == Ok::<Cluster, String>(Cluster::Devnet),
            lower_of(s@) != "devnet"@ && lower_of(s@) == "mainnet"@ ==> r == Ok::<
                Cluster,
                String,
            >(Cluster::Mainnet),
            lower_of(s@) != "devnet"@ && lower_of(s@) != "mainnet"@ ==> (r matches Err(e)
                && e@ == "Invalid cluster. Must be 'mainnet' or 'devnet'"@),
    {
        let lowered = lowercase(s);
        if lowered == String::from_str("devnet") {
            Ok(Cluster::Devnet)
        } else if lowered == String::from_str("mainnet") {
            Ok(Cluster::Mainnet)
        } else {
            Err(String::from_str("Invalid cluster. Must be 'mainnet' or 'devnet'"))
        }
    }

    /// The numeric network id used to stamp produced records.
    pub fn to_network_id(&self) -> (r: i32)
        ensures
            r == network_id_spec(*self),
    {
        match self {
            Cluster::Devnet => 0,
            Cluster::Mainnet => 1,
        }
    }

    /// The lower-case name of the cluster.
    pub fn display_name(&self) -> (r: String)
        ensures
            *self == Cluster::Devnet ==> r@ == "devnet"@,
            *self == Cluster::Mainnet ==> r@ == "mainnet"@,
    {
        match self {
            Cluster::Devnet => String::from_str("devnet"),
            Cluster::Mainnet => String::from_str("mainnet"),
        }
    }
}

} // verus!
