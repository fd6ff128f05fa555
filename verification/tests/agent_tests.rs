//! The orchestrator's saga: staged intents, receipt decisions, and the
//! reply transitions that consume them.

use angel_staking::agent::{
    execute_bond, execute_claim, execute_unbond, reply, AgentState, ContractError, ReceiptView,
    ReplyAction, EXECUTE_CLAIM_STAKING_REPLY_ID, EXECUTE_NEW_BOND_NFT_REPLY_ID,
    EXECUTE_NEW_BOND_STAKING_REPLY_ID, EXECUTE_RE_BOND_STAKING_REPLY_ID,
    EXECUTE_UNBOND_STAKING_REPLY_ID, INSTANTIATE_NFT_REPLY_ID,
};
use angel_staking::msg::MessageInfo;
use angel_staking::nft::{Metadata, Status};
use angel_staking::state::Coin;

fn coin(amount: u128, denom: &str) -> Coin {
    Coin { denom: denom.to_string(), amount }
}

fn info(sender: &str, funds: &[Coin]) -> MessageInfo {
    MessageInfo { sender: sender.to_string(), funds: funds.to_vec() }
}

fn receipt(owner: &str, amount: u128, status: Status, staking_bonded: u128) -> ReceiptView {
    ReceiptView {
        owner: owner.to_string(),
        extension: Metadata { native: vec![coin(amount, "ustake")], status },
        staking_bonded,
    }
}

#[test]
fn new_bond_mints_under_fresh_id() {
    let mut state = AgentState::new();
    let d = execute_bond(&mut state, &info("bob", &[coin(100, "ustake")]), None, None).unwrap();
    assert_eq!(d.reply_id, EXECUTE_NEW_BOND_STAKING_REPLY_ID);
    assert_eq!(d.nft_id, "0");
    assert_eq!(state.next_nft_id, 1);
    let cache = state.cache.clone().unwrap();
    assert_eq!(cache.sender, "bob");
    assert_eq!(cache.nft_id, "0");
    assert_eq!(cache.extension.native, vec![coin(100, "ustake")]);
    assert_eq!(cache.extension.status, Status::Bonded);

    // the staking sub-call succeeded: the intent is consumed, a mint follows
    let action = reply(&mut state, EXECUTE_NEW_BOND_STAKING_REPLY_ID, true).unwrap();
    match action {
        ReplyAction::MintReceipt(c) => assert_eq!(c.nft_id, "0"),
        other => panic!("Unexpected action: {:?}", other),
    }
    assert!(state.cache.is_none());

    // the registry's own completion needs nothing further
    let action = reply(&mut state, EXECUTE_NEW_BOND_NFT_REPLY_ID, true).unwrap();
    assert_eq!(action, ReplyAction::NoAction);
}

#[test]
fn rebond_grows_the_receipt() {
    let mut state = AgentState::new();
    let v = receipt("bob", 100, Status::Bonded, 100);
    let d = execute_bond(
        &mut state,
        &info("bob", &[coin(50, "ustake")]),
        Some("5".to_string()),
        Some(&v),
    )
    .unwrap();
    assert_eq!(d.reply_id, EXECUTE_RE_BOND_STAKING_REPLY_ID);
    assert_eq!(d.nft_id, "5");
    let cache = state.cache.clone().unwrap();
    assert_eq!(cache.extension.native, vec![coin(150, "ustake")]);
    assert_eq!(cache.extension.status, Status::Bonded);
}

#[test]
fn rebond_checks_are_enforced() {
    let mut state = AgentState::new();
    let funds = [coin(50, "ustake")];

    let v = receipt("alice", 100, Status::Bonded, 100);
    let err =
        execute_bond(&mut state, &info("bob", &funds), Some("5".into()), Some(&v)).unwrap_err();
    assert_eq!(err, ContractError::NotOwnerNFT {});

    let v = receipt("bob", 100, Status::Unbonding, 100);
    let err =
        execute_bond(&mut state, &info("bob", &funds), Some("5".into()), Some(&v)).unwrap_err();
    assert_eq!(err, ContractError::UnbondingNFT {});

    let mut v = receipt("bob", 100, Status::Bonded, 100);
    v.extension.native[0].denom = "other".to_string();
    let err =
        execute_bond(&mut state, &info("bob", &funds), Some("5".into()), Some(&v)).unwrap_err();
    assert_eq!(err, ContractError::OnlyOneNativeCoinPerNFT {});

    let v = receipt("bob", 100, Status::Bonded, 70);
    let err =
        execute_bond(&mut state, &info("bob", &funds), Some("5".into()), Some(&v)).unwrap_err();
    assert_eq!(
        err,
        ContractError::NFTStakingMismatch { staking: "70".to_string(), nft: "100".to_string() }
    );

    let err = execute_bond(&mut state, &info("bob", &[]), None, None).unwrap_err();
    assert_eq!(err, ContractError::NoFunds {});
    let err = execute_bond(
        &mut state,
        &info("bob", &[coin(1, "a"), coin(1, "b")]),
        None,
        None,
    )
    .unwrap_err();
    assert_eq!(err, ContractError::MultipleDenoms {});
}

#[test]
fn unbond_stages_an_unbonding_update() {
    let mut state = AgentState::new();
    let v = receipt("bob", 100, Status::Bonded, 100);
    let d = execute_unbond(&mut state, &info("bob", &[]), "5".to_string(), &v).unwrap();
    assert_eq!(d.reply_id, EXECUTE_UNBOND_STAKING_REPLY_ID);
    assert_eq!(d.amount, 100);
    let cache = state.cache.clone().unwrap();
    assert_eq!(cache.extension.status, Status::Unbonding);

    let action = reply(&mut state, EXECUTE_UNBOND_STAKING_REPLY_ID, true).unwrap();
    match action {
        ReplyAction::UpdateReceiptMetadata(c) => assert_eq!(c.nft_id, "5"),
        other => panic!("Unexpected action: {:?}", other),
    }
    assert!(state.cache.is_none());
}

#[test]
fn claim_burns_the_receipt() {
    let mut state = AgentState::new();
    let v = receipt("bob", 100, Status::Unbonding, 100);
    let d = execute_claim(&mut state, &info("bob", &[]), "5".to_string(), &v).unwrap();
    assert_eq!(d.reply_id, EXECUTE_CLAIM_STAKING_REPLY_ID);
    assert_eq!(d.sender, "bob");
    assert_eq!(d.amount, 100);

    let action = reply(&mut state, EXECUTE_CLAIM_STAKING_REPLY_ID, true).unwrap();
    assert_eq!(action, ReplyAction::BurnReceipt("5".to_string()));
    assert!(state.cache.is_none());
}

#[test]
fn reply_guards_the_saga() {
    let mut state = AgentState::new();
    // instantiation completions record the collaborator addresses
    let action = reply(&mut state, INSTANTIATE_NFT_REPLY_ID, true).unwrap();
    assert_eq!(action, ReplyAction::RecordNftContract);
    // a completion with no staged intent is refused
    let err = reply(&mut state, EXECUTE_NEW_BOND_STAKING_REPLY_ID, true).unwrap_err();
    assert_eq!(err, ContractError::NoPendingIntent {});
    // a failed sub-call has no handled transition
    let err = reply(&mut state, EXECUTE_NEW_BOND_STAKING_REPLY_ID, false).unwrap_err();
    assert_eq!(err, ContractError::UnknownReplyIdSubMsgResult { id: "2".to_string() });
    // an id outside the saga is refused
    let err = reply(&mut state, 42, true).unwrap_err();
    assert_eq!(err, ContractError::UnknownReplyIdSubMsgResult { id: "42".to_string() });
}
