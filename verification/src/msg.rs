//! Messages in and out of the ledger: the execute and query requests, the
//! chain data an operation reads, and the responses (instructions to the
//! chain's staking, distribution and bank modules, plus event attributes).

use vstd::prelude::*;

use crate::state::{BlockInfo, Claim, Coin, Duration, ValidatorInfo};

verus! {

/// Instantiation parameters: the three privileged identities.
#[derive(Debug, Clone, PartialEq, Eq)]
pub struct InstantiateMsg {
    pub agent: String,
    pub manager: String,
    pub treasury: String,
}

/// An execute request against the ledger.
#[derive(Debug, Clone, PartialEq, Eq)]
pub enum ExecuteMsg {
    /// Bond the sent funds on behalf of a position.
    Bond { nft_id: u128 },
    /// Unbond a position's full bonded amount.
    Unbond { nft_id: u128, amount: u128 },
    /// Pay out a position's matured claims to `sender`.
    Claim { nft_id: u128, sender: String, amount: u128 },
    AddValidator { address: String, bond_denom: String, unbonding_period: Duration },
    RemoveValidator { address: String },
    /// Check the pool's bonded total against the chain's delegations.
    BondCheck {},
    /// Sweep pending rewards from all validators with stake.
    CollectAngelRewards {},
}

/// A query against the ledger (or, for the delegation and balance variants, a
/// passthrough of chain data supplied by the caller).
#[derive(Debug, Clone, PartialEq, Eq)]
pub enum QueryMsg {
    /// The maturing claims of one position.
    Claims { nft_id: String },
    ValidatorInfo { address: String },
    TotalBonded {},
    TotalClaimed {},
    Bonded {},
    Unbonding {},
    BondedOnValidator { address: String },
    BondedByNFT { nft_id: String },
    Agent {},
    Manager {},
    RewardsBalance {},
    DelegationOnValidator { address: String },
    AllDelegations {},
}

/// The claims of one position, as the claims query reports them.
#[derive(Debug, Clone, PartialEq, Eq)]
pub struct ClaimsResponse {
    pub claims: Vec<Claim>,
}

/// One delegation the chain reports for the pool's account.
#[derive(Debug, PartialEq, Eq)]
pub struct Delegation {
    pub validator: String,
    pub amount: Coin,
}

impl Clone for Delegation {
    /// An exact copy.
    fn clone(&self) -> (r: Self)
        ensures
            r == *self,
    {
        Delegation { validator: self.validator.clone(), amount: self.amount.clone() }
    }
}

/// An event attribute on a response.
#[derive(Debug, Clone, PartialEq, Eq)]
pub struct Attribute {
    pub key: String,
    pub value: String,
}

/// An instruction to the chain, emitted by a successful transition.
#[derive(Debug, Clone, PartialEq, Eq)]
pub enum OutMsg {
    Delegate { validator: String, amount: Coin },
    Undelegate { validator: String, amount: Coin },
    Redelegate { src_validator: String, dst_validator: String, amount: Coin },
    WithdrawDelegatorReward { validator: String },
    SetWithdrawAddress { address: String },
    Send { to_address: String, amount: Vec<Coin> },
}

/// What a successful transition hands back: instructions for the chain and
/// event attributes.
#[derive(Debug, Clone, PartialEq, Eq)]
pub struct Response {
    pub messages: Vec<OutMsg>,
    pub attributes: Vec<Attribute>,
}

/// The caller of an operation and the funds sent along.
#[derive(Debug, Clone, PartialEq, Eq)]
pub struct MessageInfo {
    pub sender: String,
    pub funds: Vec<Coin>,
}

/// The chain position an operation runs at.
#[derive(Debug, Clone, Copy, PartialEq, Eq)]
pub struct Env {
    pub block: BlockInfo,
}

/// A snapshot of the chain data an operation may read: the bondable
/// denomination, the active validator set, the delegations of the pool's
/// account, and the pool account's balance of the bondable denomination.
#[derive(Debug, Clone, PartialEq, Eq)]
pub struct ChainInfo {
    pub bonded_denom: String,
    pub validator_set: Vec<String>,
    pub delegations: Vec<Delegation>,
    pub balance: u128,
}

/// A typed query result.
#[derive(Debug, Clone, PartialEq, Eq)]
pub enum QueryAnswer {
    Claims(ClaimsResponse),
    ValidatorInfo(ValidatorInfo),
    Amount(u128),
    Address(String),
    Balance(Coin),
    Delegation(Option<Delegation>),
    AllDelegations(Vec<Delegation>),
}

/// Whether `set` holds the address `addr`.
pub open spec fn spec_set_contains(set: Seq<String>, addr: Seq<char>) -> bool {
    exists|i: int| 0 <= i < set.len() && set[i]@ == addr
}

/// The first delegation in `dels` for validator `addr`, if any.
pub open spec fn spec_delegation_for(dels: Seq<Delegation>, addr: Seq<char>) -> Option<Delegation>
    decreases dels.len(),
{
    if dels.len() == 0 {
        None
    } else if dels[0].validator@ == addr {
        Some(dels[0])
    } else {
        spec_delegation_for(dels.drop_first(), addr)
    }
}

} // verus!
