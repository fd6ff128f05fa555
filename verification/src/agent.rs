//! The orchestration layer's decision core.  The orchestrator sequences
//! cross-contract calls: a user request first runs against the staking
//! ledger, and a reply then mints, updates or burns the receipt.  What to do
//! when a sub-call completes is staged in a single pending-intent slot, kept
//! here as an explicit `Option` that every terminal transition clears.  The
//! functions in this module make all decisions over plain values; issuing the
//! calls and reading the replies stays with the caller.

use vstd::prelude::*;

use crate::msg::MessageInfo;
use crate::nft::{Metadata, Status};
use crate::state::Coin;
use crate::text::{dec_str, spec_dec_str};

verus! {

/// Reply keys naming the sub-call a completion event belongs to.
pub const INSTANTIATE_NFT_REPLY_ID: u64 = 0;

pub const INSTANTIATE_STAKING_REPLY_ID: u64 = 1;

pub const EXECUTE_NEW_BOND_STAKING_REPLY_ID: u64 = 2;

pub const EXECUTE_RE_BOND_STAKING_REPLY_ID: u64 = 3;

pub const EXECUTE_NEW_BOND_NFT_REPLY_ID: u64 = 4;

pub const EXECUTE_RE_BOND_NFT_REPLY_ID: u64 = 5;

pub const EXECUTE_UNBOND_NFT_REPLY_ID: u64 = 6;

pub const EXECUTE_UNBOND_STAKING_REPLY_ID: u64 = 7;

pub const EXECUTE_CLAIM_NFT_REPLY_ID: u64 = 8;

pub const EXECUTE_CLAIM_STAKING_REPLY_ID: u64 = 9;

/// Instantiation parameters of the orchestrator.
#[derive(Debug, Clone, PartialEq, Eq)]
pub struct InstantiateMsg {
    pub nft_code_id: u64,
    pub staking_code_id: u64,
    pub admin: String,
    pub manager: String,
    pub treasury: String,
}

/// A user request to the orchestrator.
#[derive(Debug, Clone, PartialEq, Eq)]
pub enum ExecuteMsg {
    /// Bond the sent funds: to a fresh receipt, or onto an existing one.
    Bond { nft_id: Option<String> },
    /// Unbond the full stake of a receipt.
    Unbond { nft_id: String },
    /// Claim the matured funds of a receipt.
    Claim { nft_id: String },
}

/// A query against the orchestrator.
#[derive(Debug, Clone, PartialEq, Eq)]
pub enum QueryMsg {
    GetNFTAdress {},
    GetStakingAdress {},
}

/// The pending intent: what the receipt registry must be told once the
/// staking sub-call of the current request succeeds.
#[derive(Debug, PartialEq, Eq)]
pub struct CacheNFT {
    pub sender: String,
    pub nft_id: String,
    pub extension: Metadata,
}

impl Clone for CacheNFT {
    /// A copy with the same sender, id and metadata.
    fn clone(&self) -> (r: Self)
        ensures
            r.sender == self.sender,
            r.nft_id == self.nft_id,
            r.extension.native@ == self.extension.native@,
            r.extension.status == self.extension.status,
    {
        CacheNFT {
            sender: self.sender.clone(),
            nft_id: self.nft_id.clone(),
            extension: self.extension.clone(),
        }
    }
}

/// Typed failures of the orchestrator's decisions.
#[derive(Debug, Clone, PartialEq, Eq)]
pub enum ContractError {
    /// No funds were sent with the bond (or a zero amount).
    NoFunds {},
    /// More than one denomination was sent with the bond.
    MultipleDenoms {},
    /// The payment could not be accepted.
    InvalidCoin {},
    /// The caller does not own the receipt it acts on.
    NotOwnerNFT {},
    /// The receipt is mid-unbonding and cannot take another bond.
    UnbondingNFT {},
    /// A receipt carries exactly one native coin; its denomination is fixed.
    OnlyOneNativeCoinPerNFT {},
    /// The receipt's recorded amount disagrees with the staking ledger's.
    NFTStakingMismatch { staking: String, nft: String },
    /// A completion event arrived with no pending intent to consume.
    NoPendingIntent {},
    /// A completion event that no stage of the saga expects.
    UnknownReplyIdSubMsgResult { id: String },
}

/// The orchestrator's own state: the id the next minted receipt gets, and
/// the single pending-intent slot.  The slot is an explicit `Option` and is
/// cleared (set to `None`) on every terminal transition of the saga, never
/// overwritten with blank sentinel values.
#[derive(Debug, PartialEq, Eq)]
pub struct AgentState {
    pub next_nft_id: u128,
    pub cache: Option<CacheNFT>,
}

impl AgentState {
    /// A fresh orchestrator: the first receipt gets id zero, nothing pending.
    pub fn new() -> (r: AgentState)
        ensures
            r.next_nft_id == 0,
            r.cache is None,
    {
        AgentState { next_nft_id: 0, cache: None }
    }
}

/// What the caller-side queries report about an existing receipt: its owner,
/// its stored metadata, and the staking ledger's bonded amount for it.
#[derive(Debug, PartialEq, Eq)]
pub struct ReceiptView {
    pub owner: String,
    pub extension: Metadata,
    pub staking_bonded: u128,
}

/// The staking sub-call a bond decision issues: bond the sent funds under
/// `nft_id`, and continue at `reply_id` when it succeeds.
#[derive(Debug, PartialEq, Eq)]
pub struct BondDecision {
    pub reply_id: u64,
    pub nft_id: String,
}

/// The staking sub-call an unbond decision issues.
#[derive(Debug, PartialEq, Eq)]
pub struct UnbondDecision {
    pub reply_id: u64,
    pub nft_id: String,
    pub amount: u128,
}

/// The staking sub-call a claim decision issues.
#[derive(Debug, PartialEq, Eq)]
pub struct ClaimDecision {
    pub reply_id: u64,
    pub nft_id: String,
    pub sender: String,
    pub amount: u128,
}

/// What the receipt registry must be told after a sub-call completed.
#[derive(Debug, PartialEq, Eq)]
pub enum ReplyAction {
    /// Store the freshly instantiated registry's address.
    RecordNftContract,
    /// Store the freshly instantiated staking ledger's address.
    RecordStakingContract,
    /// Mint a receipt for the consumed intent.
    MintReceipt(CacheNFT),
    /// Update the receipt named by the consumed intent.
    UpdateReceiptMetadata(CacheNFT),
    /// Burn the receipt named by the consumed intent.
    BurnReceipt(String),
    /// Nothing left to do; the saga is complete.
    NoAction,
}

/// The single sent coin, or why the payment is rejected.
pub open spec fn spec_agent_one_coin(funds: Seq<Coin>) -> Result<Coin, ContractError> {
    if funds.len() == 0 {
        Err(ContractError::NoFunds {})
    } else if funds.len() == 1 {
        if funds[0].amount == 0 {
            Err(ContractError::NoFunds {})
        } else {
            Ok(funds[0])
        }
    } else {
        Err(ContractError::MultipleDenoms {})
    }
}

fn agent_one_coin(info: &MessageInfo) -> (r: Result<Coin, ContractError>)
    ensures
        r == spec_agent_one_coin(info.funds@),
{
    if info.funds.len() == 0 {
        Err(ContractError::NoFunds {})
    } else if info.funds.len() == 1 {
        if info.funds[0].amount == 0 {
            Err(ContractError::NoFunds {})
        } else {
            Ok(info.funds[0].clone())
        }
    } else {
        Err(ContractError::MultipleDenoms {})
    }
}

/// Decides a bond request.  Without a receipt id, a fresh id is drawn from
/// the counter and a mint intent is staged.  With one, the caller must own
/// the receipt, the receipt must not be mid-unbonding, the sent coin must
/// match the receipt's single stored coin, and the receipt's recorded amount
/// must agree with the staking ledger; then an update intent with the grown
/// amount is staged.  Either way the decision is to call the staking bond.
pub fn execute_bond(
    state: &mut AgentState,
    info: &MessageInfo,
    nft_id: Option<String>,
    existing: Option<&ReceiptView>,
) -> (r: Result<BondDecision, ContractError>)
    requires
        nft_id is Some ==> (existing matches Some(v) && v.extension.native@.len() == 1
            && v.extension.native@[0].amount + (if spec_agent_one_coin(info.funds@) is Ok {
            spec_agent_one_coin(info.funds@)->Ok_0.amount as int
        } else {
            0
        }) <= u128::MAX),
        nft_id is None ==> old(state).next_nft_id < u128::MAX,
    ensures
        r is Err ==> *final(state) == *old(state),
        spec_agent_one_coin(info.funds@) is Err ==> r == Err::<BondDecision, ContractError>(
            spec_agent_one_coin(info.funds@)->Err_0,
        ),
        ({
            let c = spec_agent_one_coin(info.funds@);
            c is Ok ==> match nft_id {
                Option::Some(id) => {
                    let v = existing->0;
                    &&& (v.owner@ != info.sender@ ==> r == Err::<BondDecision, ContractError>(
                        ContractError::NotOwnerNFT {},
                    ))
                    &&& (v.owner@ == info.sender@ && v.extension.status is Unbonding ==> r
                        == Err::<BondDecision, ContractError>(ContractError::UnbondingNFT {}))
                    &&& (v.owner@ == info.sender@ && !(v.extension.status is Unbonding)
                        && v.extension.native@[0].denom@ != c->Ok_0.denom@ ==> r == Err::<
                        BondDecision,
                        ContractError,
                    >(ContractError::OnlyOneNativeCoinPerNFT {}))
                    &&& (v.owner@ == info.sender@ && !(v.extension.status is Unbonding)
                        && v.extension.native@[0].denom@ == c->Ok_0.denom@
                        && v.extension.native@[0].amount != v.staking_bonded ==> (r matches Err(
                        e,
                    ) && e matches ContractError::NFTStakingMismatch { .. }))
                    &&& (v.owner@ == info.sender@ && !(v.extension.status is Unbonding)
                        && v.extension.native@[0].denom@ == c->Ok_0.denom@
                        && v.extension.native@[0].amount == v.staking_bonded ==> (r matches Ok(d)
                        && d.reply_id == EXECUTE_RE_BOND_STAKING_REPLY_ID && d.nft_id@ == id@
                        && final(state).next_nft_id == old(state).next_nft_id && (final(state).cache matches Some(cache) && cache.sender@ == info.sender@ && cache.nft_id@
                        == id@ && cache.extension.status is Bonded
                        && cache.extension.native@.len() == 1
                        && cache.extension.native@[0].denom@ == c->Ok_0.denom@
                        && cache.extension.native@[0].amount == v.extension.native@[0].amount
                        + c->Ok_0.amount)))
                },
                Option::None => r matches Ok(d) && d.reply_id
                    == EXECUTE_NEW_BOND_STAKING_REPLY_ID && d.nft_id@ == spec_dec_str(
                    old(state).next_nft_id as nat,
                ) && final(state).next_nft_id == old(state).next_nft_id + 1 && (final(state).cache matches Some(cache) && cache.sender@ == info.sender@ && cache.nft_id@
                    == spec_dec_str(old(state).next_nft_id as nat)
                    && cache.extension.status is Bonded && cache.extension.native@.len() == 1
                    && cache.extension.native@[0] == c->Ok_0),
            }
        }),
{
    let d_coin = match agent_one_coin(info) {
        Ok(c) => c,
        Err(e) => {
            return Err(e);
        },
    };
    match nft_id {
        Some(id) => {
            let v = match existing {
                Some(v) => v,
                None => {
                    proof {
                        assert(false);
                    }
                    return Err(ContractError::InvalidCoin {});
                },
            };
            if v.owner != info.sender {
                return Err(ContractError::NotOwnerNFT {});
            }
            if matches!(v.extension.status, Status::Unbonding) {
                return Err(ContractError::UnbondingNFT {});
            }
            if v.extension.native[0].denom != d_coin.denom {
                return Err(ContractError::OnlyOneNativeCoinPerNFT {});
            }
            let extension_amount = v.extension.native[0].amount;
            if extension_amount != v.staking_bonded {
                return Err(
                    ContractError::NFTStakingMismatch {
                        staking: dec_str(v.staking_bonded),
                        nft: dec_str(extension_amount),
                    },
                );
            }
            let mut native: Vec<Coin> = Vec::new();
            native.push(
                Coin {
                    denom: d_coin.denom.clone(),
                    amount: extension_amount + d_coin.amount,
                },
            );
            let extension = Metadata { native, status: Status::Bonded };
            state.cache = Some(
                CacheNFT { sender: info.sender.clone(), nft_id: id.clone(), extension },
            );
            Ok(BondDecision { reply_id: EXECUTE_RE_BOND_STAKING_REPLY_ID, nft_id: id })
        },
        None => {
            let current = state.next_nft_id;
            state.next_nft_id = state.next_nft_id + 1;
            let key = dec_str(current);
            let mut native: Vec<Coin> = Vec::new();
            native.push(d_coin);
            let extension = Metadata { native, status: Status::Bonded };
            state.cache = Some(
                CacheNFT { sender: info.sender.clone(), nft_id: key.clone(), extension },
            );
            Ok(BondDecision { reply_id: EXECUTE_NEW_BOND_STAKING_REPLY_ID, nft_id: key })
        },
    }
}

/// Decides an unbond request: the caller must own the receipt; its whole
/// stored amount is unbonded and an update intent marking it `Unbonding` is
/// staged.
pub fn execute_unbond(
    state: &mut AgentState,
    info: &MessageInfo,
    nft_id: String,
    receipt: &ReceiptView,
) -> (r: Result<UnbondDecision, ContractError>)
    requires
        receipt.extension.native@.len() == 1,
    ensures
        r is Err ==> *final(state) == *old(state),
        receipt.owner@ != info.sender@ ==> r == Err::<UnbondDecision, ContractError>(
            ContractError::NotOwnerNFT {},
        ),
        receipt.owner@ == info.sender@ ==> (r matches Ok(d) && d.reply_id
            == EXECUTE_UNBOND_STAKING_REPLY_ID && d.nft_id@ == nft_id@ && d.amount
            == receipt.extension.native@[0].amount && final(state).next_nft_id == old(
            state,
        ).next_nft_id && (final(state).cache matches Some(cache) && cache.sender@ == info.sender@
            && cache.nft_id@ == nft_id@ && cache.extension.status is Unbonding
            && cache.extension.native@ == receipt.extension.native@)),
{
    if receipt.owner != info.sender {
        return Err(ContractError::NotOwnerNFT {});
    }
    let nft_amount = receipt.extension.native[0].amount;
    let mut extension = receipt.extension.clone();
    extension.status = Status::Unbonding;
    state.cache = Some(
        CacheNFT { sender: info.sender.clone(), nft_id: nft_id.clone(), extension },
    );
    Ok(
        UnbondDecision {
            reply_id: EXECUTE_UNBOND_STAKING_REPLY_ID,
            nft_id,
            amount: nft_amount,
        },
    )
}

/// Decides a claim request: the caller must own the receipt; its whole
/// stored amount is claimed for the caller and a burn intent is staged.
pub fn execute_claim(
    state: &mut AgentState,
    info: &MessageInfo,
    nft_id: String,
    receipt: &ReceiptView,
) -> (r: Result<ClaimDecision, ContractError>)
    requires
        receipt.extension.native@.len() == 1,
    ensures
        r is Err ==> *final(state) == *old(state),
        receipt.owner@ != info.sender@ ==> r == Err::<ClaimDecision, ContractError>(
            ContractError::NotOwnerNFT {},
        ),
        receipt.owner@ == info.sender@ ==> (r matches Ok(d) && d.reply_id
            == EXECUTE_CLAIM_STAKING_REPLY_ID && d.nft_id@ == nft_id@ && d.sender@
            == info.sender@ && d.amount == receipt.extension.native@[0].amount && (final(state).cache matches Some(cache) && cache.sender@ == info.sender@ && cache.nft_id@ == nft_id@
            && cache.extension.native@ == receipt.extension.native@ && cache.extension.status
            == receipt.extension.status)),
{
    if receipt.owner != info.sender {
        return Err(ContractError::NotOwnerNFT {});
    }
    let nft_amount = receipt.extension.native[0].amount;
    let extension = receipt.extension.clone();
    state.cache = Some(
        CacheNFT { sender: info.sender.clone(), nft_id: nft_id.clone(), extension },
    );
    Ok(
        ClaimDecision {
            reply_id: EXECUTE_CLAIM_STAKING_REPLY_ID,
            nft_id,
            sender: info.sender.clone(),
            amount: nft_amount,
        },
    )
}

/// Consumes a completion event of the saga.  A successful staking sub-call
/// consumes the pending intent and tells the registry what to do; the
/// pending-intent slot is cleared on every such terminal transition.
/// Registry completions need no further action, and an event no stage
/// expects is a typed failure.
pub fn reply(state: &mut AgentState, id: u64, success: bool) -> (r: Result<
    ReplyAction,
    ContractError,
>)
    ensures
        r is Err ==> *final(state) == *old(state),
        !success ==> (r matches Err(e) && e matches ContractError::UnknownReplyIdSubMsgResult {
            ..
        }),
        success && (id == INSTANTIATE_NFT_REPLY_ID || id == INSTANTIATE_STAKING_REPLY_ID) ==> (r
            matches Ok(a) && *final(state) == *old(state) && (id == INSTANTIATE_NFT_REPLY_ID
            ==> a == ReplyAction::RecordNftContract) && (id == INSTANTIATE_STAKING_REPLY_ID ==> a
            == ReplyAction::RecordStakingContract)),
        success && (id == EXECUTE_NEW_BOND_STAKING_REPLY_ID || id
            == EXECUTE_RE_BOND_STAKING_REPLY_ID || id == EXECUTE_UNBOND_STAKING_REPLY_ID || id
            == EXECUTE_CLAIM_STAKING_REPLY_ID) && old(state).cache is None ==> r == Err::<
            ReplyAction,
            ContractError,
        >(ContractError::NoPendingIntent {}),
        success && (id == EXECUTE_NEW_BOND_STAKING_REPLY_ID || id
            == EXECUTE_RE_BOND_STAKING_REPLY_ID || id == EXECUTE_UNBOND_STAKING_REPLY_ID || id
            == EXECUTE_CLAIM_STAKING_REPLY_ID) && old(state).cache is Some ==> (r is Ok && final(state).cache is None && final(state).next_nft_id == old(state).next_nft_id),
        (success && id == EXECUTE_NEW_BOND_STAKING_REPLY_ID && old(state).cache is Some)
            ==> (r matches Ok(a) && a matches ReplyAction::MintReceipt(c) && c.nft_id@ == old(
            state,
        ).cache->0.nft_id@ && c.sender@ == old(state).cache->0.sender@),
        (success && (id == EXECUTE_RE_BOND_STAKING_REPLY_ID || id
            == EXECUTE_UNBOND_STAKING_REPLY_ID) && old(state).cache is Some) ==> (r matches Ok(a)
            && a matches ReplyAction::UpdateReceiptMetadata(c) && c.nft_id@ == old(
            state,
        ).cache->0.nft_id@),
        (success && id == EXECUTE_CLAIM_STAKING_REPLY_ID && old(state).cache is Some) ==> (r
            matches Ok(a) && a matches ReplyAction::BurnReceipt(token) && token@ == old(
            state,
        ).cache->0.nft_id@),
        success && (id == EXECUTE_NEW_BOND_NFT_REPLY_ID || id == EXECUTE_RE_BOND_NFT_REPLY_ID
            || id == EXECUTE_UNBOND_NFT_REPLY_ID || id == EXECUTE_CLAIM_NFT_REPLY_ID) ==> r
            == Ok::<ReplyAction, ContractError>(ReplyAction::NoAction),
        success && id > EXECUTE_CLAIM_STAKING_REPLY_ID ==> (r matches Err(e)
            && e matches ContractError::UnknownReplyIdSubMsgResult { .. }),
{
    if !success {
        return Err(ContractError::UnknownReplyIdSubMsgResult { id: dec_str(id as u128) });
    }
    if id == INSTANTIATE_NFT_REPLY_ID {
        return Ok(ReplyAction::RecordNftContract);
    }
    if id == INSTANTIATE_STAKING_REPLY_ID {
        return Ok(ReplyAction::RecordStakingContract);
    }
    if id == EXECUTE_NEW_BOND_STAKING_REPLY_ID || id == EXECUTE_RE_BOND_STAKING_REPLY_ID || id
        == EXECUTE_UNBOND_STAKING_REPLY_ID || id == EXECUTE_CLAIM_STAKING_REPLY_ID {
        let cache = match &state.cache {
            Some(c) => c.clone(),
            None => {
                return Err(ContractError::NoPendingIntent {});
            },
        };
        // terminal transition: the pending intent is consumed and cleared
        state.cache = None;
        if id == EXECUTE_NEW_BOND_STAKING_REPLY_ID {
            return Ok(ReplyAction::MintReceipt(cache));
        }
        if id == EXECUTE_CLAIM_STAKING_REPLY_ID {
            return Ok(ReplyAction::BurnReceipt(cache.nft_id));
        }
        return Ok(ReplyAction::UpdateReceiptMetadata(cache));
    }
    if id == EXECUTE_NEW_BOND_NFT_REPLY_ID || id == EXECUTE_RE_BOND_NFT_REPLY_ID || id
        == EXECUTE_UNBOND_NFT_REPLY_ID || id == EXECUTE_CLAIM_NFT_REPLY_ID {
        return Ok(ReplyAction::NoAction);
    }
    Err(ContractError::UnknownReplyIdSubMsgResult { id: dec_str(id as u128) })
}

} // verus!
