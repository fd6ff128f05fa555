//! Typed errors of the ledger.  Every failure aborts its transition with no
//! partial effects, and the variant tells a caller whether retrying can help:
//! only `NothingToClaim` and `BalanceTooSmall` are worth retrying later.

use vstd::prelude::*;

verus! {

#[derive(Debug, Clone, PartialEq, Eq)]
pub enum ContractError {
    /// The caller is not the permitted actor for this operation.
    Unauthorized {},
    /// The validator is not part of the chain's current validator set.
    NotInValidatorSet { validator: String },
    /// Delegations reported by the chain carry differing denominations.
    DifferentBondDenom { denom1: String, denom2: String },
    /// No funds were sent with a bond.
    NoFunds {},
    /// More than one denomination was sent with a bond.
    MultipleDenoms {},
    /// The sent coin is not the chain's bondable denomination.
    InvalidCoin {},
    /// The contract does not hold enough balance to pay a matured claim yet.
    BalanceTooSmall {},
    /// No claim of this position has matured yet.
    NothingToClaim {},
    /// The validator address is already registered.
    ValidatorAlreadyRegistered { validator: String },
    /// The denomination cannot be bonded on this chain.
    DenominationCanNotBeBonded { denom: String },
    /// The chain's delegation total disagrees with the pool's bonded total.
    BondedDiffer { total_bonded: u128, state_total_bonded: u128 },
    /// No split plan covering the amount exists over the registered validators.
    UnableUnstakeAmount { amount: u128, number_validators: u64 },
    /// The validator address is not registered.
    NotRegisteredValidator { address: String },
    /// The requested amount does not match the recorded balance.
    RequestUnbondAmountMismatch { nft_id: String, requested: String, balance: String },
    /// The position has no bonded amount recorded.
    NFTNotRegistered { nft_id: String },
    /// The position is already mid-unbonding on this validator.
    NFTAlreadyUnbonding { nft_id: String, val_addr: String },
    /// The ledger's bonded amount for a validator disagrees with the chain's
    /// reported delegation.
    StateQueryDelegationMismatch { state_amount: u128, delegation_amount: u128 },
    /// The sole registered validator cannot be removed while it holds stake.
    OnlyOneValidator {},
    /// A failure outside the fixed taxonomy, described in words.
    CustomError { val: String },
}

} // verus!
