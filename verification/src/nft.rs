//! Interface types of the receipt registry: the metadata a receipt carries
//! (the staked coin and the bond status) and its query shapes.  The registry
//! itself is an external collaborator; the orchestration logic in
//! [`crate::agent`] decides from these values, and this crate never touches
//! the registry's own storage.

use vstd::prelude::*;

use crate::state::Coin;

verus! {

/// Bond status recorded on a receipt.
#[derive(Debug, Clone, Copy, PartialEq, Eq)]
pub enum Status {
    Bonded,
    Unbonding,
}

/// Metadata stored on a receipt: the one staked coin and the bond status.
#[derive(Debug, PartialEq, Eq)]
pub struct Metadata {
    pub native: Vec<Coin>,
    pub status: Status,
}

impl Clone for Metadata {
    /// A copy with the same coins and status.
    fn clone(&self) -> (r: Self)
        ensures
            r.native@ == self.native@,
            r.status == self.status,
    {
        let mut native: Vec<Coin> = Vec::new();
        let n = self.native.len();
        let mut i: usize = 0;
        while i < n
            invariant
                i <= n,
                n == self.native@.len(),
                native@ == self.native@.take(i as int),
            decreases n - i,
        {
            native.push(self.native[i].clone());
            proof {
                assert(self.native@.take(i + 1).drop_last() =~= self.native@.take(i as int));
                assert(native@ =~= self.native@.take(i + 1));
            }
            i = i + 1;
        }
        proof {
            assert(self.native@.take(n as int) =~= self.native@);
        }
        Metadata { native, status: self.status }
    }
}

/// Shows who can mint receipts.
#[derive(Debug, Clone, PartialEq, Eq)]
pub struct MinterResponse {
    pub minter: String,
}

/// Queries the registry answers about receipts.
#[derive(Debug, Clone, PartialEq, Eq)]
pub enum QueryMsg {
    /// The owner of the given token.
    OwnerOf { token_id: String, include_expired: Option<bool> },
    /// Total number of tokens issued.
    NumTokens {},
    /// Top-level collection metadata.
    ContractInfo {},
    /// Metadata of one token.
    NftInfo { token_id: String },
    /// Metadata and owner of one token at once.
    AllNftInfo { token_id: String, include_expired: Option<bool> },
    /// Tokens owned by one address.
    Tokens { owner: String, start_after: Option<String>, limit: Option<u32> },
    /// All token ids.
    AllTokens { start_after: Option<String>, limit: Option<u32> },
    /// The minter.
    Minter {},
    /// Collection-level extension query.
    CollectionInfo {},
}

} // verus!
