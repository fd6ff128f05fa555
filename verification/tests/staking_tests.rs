//! The staking ledger exercised end to end: registering validators, bonding,
//! unbonding with the split plan, claiming matured funds, removing
//! validators, reconciliation and the reward sweep.

use angel_staking::contract::{execute, instantiate, query};
use angel_staking::error::ContractError;
use angel_staking::msg::{
    ChainInfo, Delegation, Env, ExecuteMsg, InstantiateMsg, MessageInfo, OutMsg, QueryAnswer,
    QueryMsg,
};
use angel_staking::state::{BlockInfo, Claim, Coin, Duration, State, ValidatorInfo};

const MANAGER1: &str = "manager";
const AGENT1: &str = "agent";
const TREASURY1: &str = "treasury";

const NFT_ID1: u128 = 1u128;
const NFT_ID2: u128 = 2u128;
const NFT_ID3: u128 = 3u128;

const VALIDATOR1: &str = "validator1";
const VALIDATOR2: &str = "validator2";
const VALIDATOR3: &str = "validator3";

const USER1: &str = "bob";

const WEEK: Duration = Duration::Time(604800);
const DAY: Duration = Duration::Time(86400);
const WEEK_PLUS_HOUR: Duration = Duration::Time(604800 + 3600);

fn mock_env() -> Env {
    Env { block: BlockInfo { height: 12345, time: 1571797419879305533 } }
}

fn mock_info(sender: &str, funds: &[Coin]) -> MessageInfo {
    MessageInfo { sender: sender.to_string(), funds: funds.to_vec() }
}

fn coin(amount: u128, denom: &str) -> Coin {
    Coin { denom: denom.to_string(), amount }
}

fn coins(amount: u128, denom: &str) -> Vec<Coin> {
    vec![coin(amount, denom)]
}

/// A chain snapshot with the three validators active and no delegations.
fn mock_chain() -> ChainInfo {
    ChainInfo {
        bonded_denom: "ustake".to_string(),
        validator_set: vec![
            VALIDATOR1.to_string(),
            VALIDATOR2.to_string(),
            VALIDATOR3.to_string(),
        ],
        delegations: vec![],
        balance: 0,
    }
}

fn mocking_set_validators_delegations(
    chain: &mut ChainInfo,
    val1_amount: u128,
    val2_amount: u128,
    val3_amount: u128,
) {
    chain.delegations = vec![
        Delegation { validator: VALIDATOR1.to_string(), amount: coin(val1_amount, "ustake") },
        Delegation { validator: VALIDATOR2.to_string(), amount: coin(val2_amount, "ustake") },
        Delegation { validator: VALIDATOR3.to_string(), amount: coin(val3_amount, "ustake") },
    ];
}

fn later(env: &Env, delta: Duration) -> Env {
    let time_delta = match delta {
        Duration::Time(t) => t,
        _ => panic!("Must provide duration in time"),
    };
    let mut res = env.clone();
    res.block.time += time_delta * 1_000_000_000;
    res
}

fn get_claims(state: &State, env: &Env, chain: &ChainInfo, addr: &str) -> Vec<Claim> {
    match query(state, env, chain, QueryMsg::Claims { nft_id: addr.to_string() }).unwrap() {
        QueryAnswer::Claims(c) => c.claims,
        other => panic!("Unexpected answer: {:?}", other),
    }
}

fn query_amount(state: &State, env: &Env, chain: &ChainInfo, msg: QueryMsg) -> u128 {
    match query(state, env, chain, msg).unwrap() {
        QueryAnswer::Amount(a) => a,
        other => panic!("Unexpected answer: {:?}", other),
    }
}

fn get_validator_info(state: &State, env: &Env, chain: &ChainInfo, address: &str) -> ValidatorInfo {
    match query(state, env, chain, QueryMsg::ValidatorInfo { address: address.to_string() })
        .unwrap()
    {
        QueryAnswer::ValidatorInfo(vi) => vi,
        other => panic!("Unexpected answer: {:?}", other),
    }
}

fn instantiate_default() -> State {
    let msg = InstantiateMsg {
        agent: AGENT1.into(),
        manager: MANAGER1.into(),
        treasury: TREASURY1.into(),
    };
    let (state, res) = instantiate(msg);
    assert_eq!(res.attributes[0].key, "action");
    assert_eq!(res.attributes[0].value, "instantiate");
    state
}

fn register_3_validators(state: &mut State, env: &Env, info: &MessageInfo, chain: &ChainInfo) {
    let msg1 = ExecuteMsg::AddValidator {
        address: VALIDATOR1.to_string(),
        bond_denom: "ustake".to_string(),
        unbonding_period: WEEK,
    };
    let msg2 = ExecuteMsg::AddValidator {
        address: VALIDATOR2.to_string(),
        bond_denom: "ustake".to_string(),
        unbonding_period: WEEK,
    };
    let msg3 = ExecuteMsg::AddValidator {
        address: VALIDATOR3.to_string(),
        bond_denom: "ustake".to_string(),
        unbonding_period: WEEK,
    };
    execute(state, env, info, chain, msg2).unwrap();
    execute(state, env, info, chain, msg1).unwrap();
    let res = execute(state, env, info, chain, msg3).unwrap();
    assert_eq!(res.attributes[0].key, "action");
    assert_eq!(res.attributes[0].value, "add_validator");
}

/// Positions one to three bond the given amounts; the contract picks the
/// validators.
fn nft123_bond_on_validators(
    state: &mut State,
    env: &Env,
    info: &MessageInfo,
    chain: &ChainInfo,
    val1_amount: u128,
    val2_amount: u128,
    val3_amount: u128,
) {
    if val1_amount > 0 {
        let info = mock_info(&info.sender, &coins(val1_amount, "ustake"));
        let msg = ExecuteMsg::Bond { nft_id: NFT_ID1 };
        let res = execute(state, env, &info, chain, msg).unwrap();
        assert_eq!(res.attributes[0].value, "bond");
    }
    if val2_amount > 0 {
        let info = mock_info(&info.sender, &coins(val2_amount, "ustake"));
        let msg = ExecuteMsg::Bond { nft_id: NFT_ID2 };
        let res = execute(state, env, &info, chain, msg).unwrap();
        assert_eq!(res.attributes[0].value, "bond");
    }
    if val3_amount > 0 {
        let info = mock_info(&info.sender, &coins(val3_amount, "ustake"));
        let msg = ExecuteMsg::Bond { nft_id: NFT_ID3 };
        let res = execute(state, env, &info, chain, msg).unwrap();
        assert_eq!(res.attributes[0].value, "bond");
    }
}

fn check_bonding_on_validators(
    state: &State,
    chain: &ChainInfo,
    val1_bonded: u128,
    val2_bonded: u128,
    val3_bonded: u128,
    val1_unbonding: u128,
    val2_unbonding: u128,
    val3_unbonding: u128,
) {
    let env = mock_env();
    let res = get_validator_info(state, &env, chain, VALIDATOR1);
    assert_eq!(
        res,
        ValidatorInfo {
            bond_denom: "ustake".to_string(),
            unbonding_period: WEEK,
            bonded: val1_bonded,
            unbonding: val1_unbonding,
        }
    );
    let res = get_validator_info(state, &env, chain, VALIDATOR2);
    assert_eq!(
        res,
        ValidatorInfo {
            bond_denom: "ustake".to_string(),
            unbonding_period: WEEK,
            bonded: val2_bonded,
            unbonding: val2_unbonding,
        }
    );
    let res = get_validator_info(state, &env, chain, VALIDATOR3);
    assert_eq!(
        res,
        ValidatorInfo {
            bond_denom: "ustake".to_string(),
            unbonding_period: WEEK,
            bonded: val3_bonded,
            unbonding: val3_unbonding,
        }
    );
}

#[test]
fn add_missing_validator() {
    let mut state = instantiate_default();
    let info = mock_info(AGENT1, &[]);
    let mut chain = mock_chain();
    chain.validator_set = vec![VALIDATOR1.to_string()];

    let msg = ExecuteMsg::AddValidator {
        address: VALIDATOR2.to_string(),
        bond_denom: "ustake".to_string(),
        unbonding_period: WEEK,
    };

    let err = execute(&mut state, &mock_env(), &info, &chain, msg.clone()).unwrap_err();
    assert_eq!(err, ContractError::Unauthorized {});

    let info = mock_info(MANAGER1, &[]);
    let err = execute(&mut state, &mock_env(), &info, &chain, msg).unwrap_err();
    assert_eq!(err, ContractError::NotInValidatorSet { validator: VALIDATOR2.into() });
}

#[test]
fn add_validators() {
    let mut state = instantiate_default();
    let env = mock_env();
    let chain = mock_chain();

    let info = mock_info(MANAGER1, &[]);
    register_3_validators(&mut state, &env, &info, &chain);

    let res = get_validator_info(&state, &env, &chain, VALIDATOR1);
    assert_eq!(
        res,
        ValidatorInfo {
            bond_denom: "ustake".to_string(),
            unbonding_period: WEEK,
            bonded: 0,
            unbonding: 0,
        }
    );
}

#[test]
fn add_validators_bond() {
    let mut state = instantiate_default();
    let env = mock_env();
    let chain = mock_chain();

    let info = mock_info(MANAGER1, &[]);
    register_3_validators(&mut state, &env, &info, &chain);

    let balance = [coin(10, "random"), coin(100, "ustake")];
    let info = mock_info(AGENT1, &balance);
    let msg = ExecuteMsg::Bond { nft_id: NFT_ID1 };
    let res = execute(&mut state, &env, &info, &chain, msg).unwrap_err();
    assert_eq!(res, ContractError::MultipleDenoms {});

    let balance = coins(100, "fakestake");
    let info = mock_info(AGENT1, &balance);
    let msg = ExecuteMsg::Bond { nft_id: NFT_ID1 };
    let res = execute(&mut state, &env, &info, &chain, msg).unwrap_err();
    assert_eq!(res, ContractError::InvalidCoin {});

    let balance = coins(100, "ustake");
    let info = mock_info(AGENT1, &balance);
    let msg = ExecuteMsg::Bond { nft_id: NFT_ID1 };
    let res = execute(&mut state, &env, &info, &chain, msg).unwrap();
    assert_eq!(res.attributes[0].key, "action");
    assert_eq!(res.attributes[0].value, "bond");
    assert_eq!(1, res.messages.len());
    match &res.messages[0] {
        OutMsg::Delegate { validator, amount } => {
            assert_eq!(validator.as_str(), VALIDATOR1);
            assert_eq!(amount, &coin(100, "ustake"));
        }
        other => panic!("Unexpected message: {:?}", other),
    }

    let balance = coins(200, "ustake");
    let info = mock_info(AGENT1, &balance);
    let msg = ExecuteMsg::Bond { nft_id: NFT_ID2 };
    let res = execute(&mut state, &env, &info, &chain, msg).unwrap();
    assert_eq!(res.attributes[0].value, "bond");

    let balance = coins(300, "ustake");
    let info = mock_info(AGENT1, &balance);
    let msg = ExecuteMsg::Bond { nft_id: NFT_ID3 };
    let res = execute(&mut state, &env, &info, &chain, msg).unwrap();
    assert_eq!(res.attributes[0].value, "bond");

    assert_eq!(query_amount(&state, &env, &chain, QueryMsg::TotalBonded {}), 600);
    assert_eq!(query_amount(&state, &env, &chain, QueryMsg::Bonded {}), 600);

    let res = get_validator_info(&state, &env, &chain, VALIDATOR1);
    assert_eq!(
        res,
        ValidatorInfo {
            bond_denom: "ustake".to_string(),
            unbonding_period: WEEK,
            bonded: 100,
            unbonding: 0,
        }
    );
}

#[test]
fn add_validators_bond_unbond() {
    let mut state = instantiate_default();
    let env = mock_env();
    let chain = mock_chain();

    let info = mock_info(MANAGER1, &[]);
    register_3_validators(&mut state, &env, &info, &chain);
    let info = mock_info(AGENT1, &[]);
    nft123_bond_on_validators(&mut state, &env, &info, &chain, 500, 300, 200);
    check_bonding_on_validators(&state, &chain, 500, 300, 200, 0, 0, 0);

    nft123_bond_on_validators(&mut state, &env, &info, &chain, 200, 400, 200);
    check_bonding_on_validators(&state, &chain, 500, 700, 600, 0, 0, 0);

    assert_eq!(query_amount(&state, &env, &chain, QueryMsg::TotalBonded {}), 1800);
    assert_eq!(query_amount(&state, &env, &chain, QueryMsg::Bonded {}), 1800);

    let msg = ExecuteMsg::Unbond { nft_id: NFT_ID1, amount: 700 };
    let res = execute(&mut state, &env, &info, &chain, msg).unwrap();
    assert_eq!(res.attributes[0].value, "unbond");
    assert_eq!(2, res.messages.len());

    match &res.messages[0] {
        OutMsg::Undelegate { validator, amount } => {
            assert_eq!(validator.as_str(), VALIDATOR2);
            assert_eq!(amount, &coin(350, "ustake"));
        }
        other => panic!("Unexpected message: {:?}", other),
    }
    assert_eq!(
        res.messages[1],
        OutMsg::Undelegate { validator: VALIDATOR3.to_string(), amount: coin(350, "ustake") }
    );

    assert_eq!(query_amount(&state, &env, &chain, QueryMsg::Unbonding {}), 700);
    check_bonding_on_validators(&state, &chain, 500, 350, 250, 0, 350, 350);

    let msg = ExecuteMsg::Unbond { nft_id: NFT_ID3, amount: 400 };
    let res = execute(&mut state, &env, &info, &chain, msg).unwrap();
    assert_eq!(res.attributes[0].value, "unbond");
    check_bonding_on_validators(&state, &chain, 300, 150, 250, 200, 550, 350);

    assert_eq!(query_amount(&state, &env, &chain, QueryMsg::Unbonding {}), 1100);

    let msg = ExecuteMsg::Unbond { nft_id: NFT_ID2, amount: 600 };
    let res = execute(&mut state, &env, &info, &chain, msg).unwrap_err();
    assert_eq!(
        res,
        ContractError::RequestUnbondAmountMismatch {
            nft_id: "2".to_string(),
            requested: "600".to_string(),
            balance: "700".to_string(),
        }
    );

    let msg = ExecuteMsg::Unbond { nft_id: NFT_ID2, amount: 700 };
    let res = execute(&mut state, &env, &info, &chain, msg).unwrap();
    assert_eq!(res.attributes[0].value, "unbond");
    check_bonding_on_validators(&state, &chain, 0, 0, 0, 500, 700, 600);

    assert_eq!(query_amount(&state, &env, &chain, QueryMsg::Unbonding {}), 1800);
    assert_eq!(query_amount(&state, &env, &chain, QueryMsg::TotalBonded {}), 1800);
    assert_eq!(query_amount(&state, &env, &chain, QueryMsg::Bonded {}), 0);
}

#[test]
fn add_validators_bond_unbond_claim() {
    let mut state = instantiate_default();
    let env = mock_env();
    let mut chain = mock_chain();

    let info = mock_info(MANAGER1, &[]);
    register_3_validators(&mut state, &env, &info, &chain);
    let info = mock_info(AGENT1, &[]);
    nft123_bond_on_validators(&mut state, &env, &info, &chain, 500, 300, 200);
    check_bonding_on_validators(&state, &chain, 500, 300, 200, 0, 0, 0);

    mocking_set_validators_delegations(&mut chain, 500, 300, 200);

    assert_eq!(query_amount(&state, &env, &chain, QueryMsg::Unbonding {}), 0);

    let msg = ExecuteMsg::Unbond { nft_id: NFT_ID3, amount: 200 };
    let res = execute(&mut state, &env, &info, &chain, msg).unwrap();
    assert_eq!(res.attributes[0].value, "unbond");
    check_bonding_on_validators(&state, &chain, 400, 200, 200, 100, 100, 0);

    assert_eq!(query_amount(&state, &env, &chain, QueryMsg::Unbonding {}), 200);

    // two claims were created, one per touched validator
    let claimer = NFT_ID3.to_string();
    let original_claims = vec![
        Claim { amount: 100, release_at: WEEK.after(&env.block) },
        Claim { amount: 100, release_at: WEEK.after(&env.block) },
    ];
    assert_eq!(original_claims, get_claims(&state, &env, &chain, &claimer));

    // before a week, the contract has not received the unstaked tokens
    let env_not_claim_ready = later(&env, DAY);
    chain.balance = 0;
    let msg = ExecuteMsg::Claim { nft_id: NFT_ID3, sender: USER1.to_string(), amount: 200 };
    let res = execute(&mut state, &env_not_claim_ready, &info, &chain, msg);
    assert!(res.is_err(), "{:?}", res);
    assert_eq!(res.unwrap_err(), ContractError::NothingToClaim {});

    assert_eq!(query_amount(&state, &env, &chain, QueryMsg::Unbonding {}), 200);

    // after a week the contract has received the unstaked tokens
    let env_claim_ready = later(&env, WEEK_PLUS_HOUR);
    chain.balance = 200;
    let msg = ExecuteMsg::Claim { nft_id: NFT_ID3, sender: USER1.to_string(), amount: 200 };
    let res = execute(&mut state, &env_claim_ready, &info, &chain, msg).unwrap();
    assert_eq!(res.attributes[0].value, "claim");

    check_bonding_on_validators(&state, &chain, 400, 200, 200, 0, 0, 0);

    assert_eq!(query_amount(&state, &env, &chain, QueryMsg::Unbonding {}), 0);
    assert_eq!(query_amount(&state, &env, &chain, QueryMsg::TotalClaimed {}), 200);
    assert_eq!(query_amount(&state, &env, &chain, QueryMsg::TotalBonded {}), 1000);
    assert_eq!(query_amount(&state, &env, &chain, QueryMsg::Bonded {}), 800);

    // unbonding position two: 300 tokens
    let msg = ExecuteMsg::Unbond { nft_id: NFT_ID2, amount: 300 };
    let res = execute(&mut state, &env, &info, &chain, msg).unwrap();
    assert_eq!(res.attributes[0].value, "unbond");
    check_bonding_on_validators(&state, &chain, 250, 200, 50, 150, 0, 150);

    mocking_set_validators_delegations(&mut chain, 250, 200, 50);
    let env_claim_ready = later(&env, WEEK_PLUS_HOUR);
    chain.balance = 300;
    let msg = ExecuteMsg::Claim { nft_id: NFT_ID2, sender: USER1.to_string(), amount: 300 };
    let res = execute(&mut state, &env_claim_ready, &info, &chain, msg).unwrap();
    assert_eq!(res.attributes[0].value, "claim");

    check_bonding_on_validators(&state, &chain, 250, 200, 50, 0, 0, 0);

    // unbonding position one: 500 tokens
    assert_eq!(query_amount(&state, &env, &chain, QueryMsg::Unbonding {}), 0);

    let msg = ExecuteMsg::Unbond { nft_id: NFT_ID1, amount: 500 };
    let res = execute(&mut state, &env, &info, &chain, msg).unwrap();
    assert_eq!(res.attributes[0].value, "unbond");
    check_bonding_on_validators(&state, &chain, 0, 0, 0, 250, 200, 50);

    mocking_set_validators_delegations(&mut chain, 0, 0, 0);
    let env_claim_ready = later(&env, WEEK_PLUS_HOUR);
    chain.balance = 500;
    let msg = ExecuteMsg::Claim { nft_id: NFT_ID1, sender: USER1.to_string(), amount: 500 };
    let res = execute(&mut state, &env_claim_ready, &info, &chain, msg).unwrap();
    assert_eq!(res.attributes[0].value, "claim");

    check_bonding_on_validators(&state, &chain, 0, 0, 0, 0, 0, 0);
}

#[test]
fn remove_validators() {
    let mut state = instantiate_default();
    let env = mock_env();
    let mut chain = mock_chain();

    let info = mock_info(MANAGER1, &[]);
    mocking_set_validators_delegations(&mut chain, 600, 300, 200);
    register_3_validators(&mut state, &env, &info, &chain);
    let info = mock_info(AGENT1, &[]);
    nft123_bond_on_validators(&mut state, &env, &info, &chain, 600, 300, 200);

    check_bonding_on_validators(&state, &chain, 600, 300, 200, 0, 0, 0);

    // removing the validator with the least stake redelegates to the next
    // least-bonded one
    let info = mock_info(MANAGER1, &[]);
    let msg = ExecuteMsg::RemoveValidator { address: VALIDATOR3.to_string() };
    let res = execute(&mut state, &env, &info, &chain, msg).unwrap();
    assert_eq!(res.attributes[0].value, "remove_validator");
    assert_eq!(1, res.messages.len());
    assert_eq!(
        res.messages[0],
        OutMsg::Redelegate {
            src_validator: VALIDATOR3.to_string(),
            dst_validator: VALIDATOR2.to_string(),
            amount: Coin { denom: "ustake".to_string(), amount: 200 },
        }
    );
    mocking_set_validators_delegations(&mut chain, 600, 500, 0);

    // the first validator stays the same
    let res = get_validator_info(&state, &env, &chain, VALIDATOR1);
    assert_eq!(
        res,
        ValidatorInfo {
            bond_denom: "ustake".to_string(),
            unbonding_period: WEEK,
            bonded: 600,
            unbonding: 0,
        }
    );

    // the second validator receives the redelegated tokens
    let res = get_validator_info(&state, &env, &chain, VALIDATOR2);
    assert_eq!(
        res,
        ValidatorInfo {
            bond_denom: "ustake".to_string(),
            unbonding_period: WEEK,
            bonded: 500,
            unbonding: 0,
        }
    );

    // the third validator is no longer registered
    let res = query(
        &state,
        &env,
        &chain,
        QueryMsg::ValidatorInfo { address: VALIDATOR3.to_string() },
    )
    .unwrap_err();
    assert_eq!(res, ContractError::NotRegisteredValidator { address: VALIDATOR3.to_string() });

    // add the third validator again
    let msg = ExecuteMsg::AddValidator {
        address: VALIDATOR3.to_string(),
        bond_denom: "ustake".to_string(),
        unbonding_period: WEEK,
    };
    execute(&mut state, &env, &info, &chain, msg).unwrap();

    // removing it with no staked tokens emits no redelegate instruction
    let msg = ExecuteMsg::RemoveValidator { address: VALIDATOR3.to_string() };
    let res = execute(&mut state, &env, &info, &chain, msg).unwrap();
    assert_eq!(res.attributes[0].value, "remove_validator");
    assert_eq!(0, res.messages.len());

    // removing the first validator redelegates to the second
    let msg = ExecuteMsg::RemoveValidator { address: VALIDATOR1.to_string() };
    let res = execute(&mut state, &env, &info, &chain, msg).unwrap();
    assert_eq!(res.attributes[0].value, "remove_validator");
    assert_eq!(1, res.messages.len());
    assert_eq!(
        res.messages[0],
        OutMsg::Redelegate {
            src_validator: VALIDATOR1.to_string(),
            dst_validator: VALIDATOR2.to_string(),
            amount: Coin { denom: "ustake".to_string(), amount: 600 },
        }
    );
    mocking_set_validators_delegations(&mut chain, 0, 1100, 0);

    let res = get_validator_info(&state, &env, &chain, VALIDATOR2);
    assert_eq!(
        res,
        ValidatorInfo {
            bond_denom: "ustake".to_string(),
            unbonding_period: WEEK,
            bonded: 1100,
            unbonding: 0,
        }
    );

    // querying the delegation on the second validator
    let res = query(
        &state,
        &env,
        &chain,
        QueryMsg::DelegationOnValidator { address: VALIDATOR2.to_string() },
    )
    .unwrap();
    match res {
        QueryAnswer::Delegation(Some(d)) => {
            assert_eq!(d.validator, VALIDATOR2.to_string());
            assert_eq!(d.amount, Coin { denom: "ustake".to_string(), amount: 1100 });
        }
        other => panic!("Unexpected answer: {:?}", other),
    }

    // the chain still reports balances for all three validator entries
    let res = query(&state, &env, &chain, QueryMsg::AllDelegations {}).unwrap();
    match res {
        QueryAnswer::AllDelegations(v) => assert_eq!(v.len(), 3),
        other => panic!("Unexpected answer: {:?}", other),
    }

    // the sole remaining staked validator cannot be removed
    let msg = ExecuteMsg::RemoveValidator { address: VALIDATOR2.to_string() };
    let res = execute(&mut state, &env, &info, &chain, msg).unwrap_err();
    assert_eq!(res, ContractError::OnlyOneValidator {});
}

#[test]
fn bond_check() {
    let mut state = instantiate_default();
    let env = mock_env();
    let mut chain = mock_chain();

    let info = mock_info(MANAGER1, &[]);
    mocking_set_validators_delegations(&mut chain, 600, 300, 200);
    register_3_validators(&mut state, &env, &info, &chain);
    let info = mock_info(AGENT1, &[]);
    nft123_bond_on_validators(&mut state, &env, &info, &chain, 600, 300, 200);

    let info = mock_info(MANAGER1, &[]);
    let msg = ExecuteMsg::BondCheck {};
    let res = execute(&mut state, &env, &info, &chain, msg).unwrap();
    assert_eq!(res.attributes[0].key, "action");
    assert_eq!(res.attributes[0].value, "bond_check");
    assert_eq!(res.attributes[1].key, "total_bonded");
    assert_eq!(res.attributes[1].value, "1100");
}

#[test]
fn collect_rewards() {
    let mut state = instantiate_default();
    let env = mock_env();
    let mut chain = mock_chain();

    let info = mock_info(MANAGER1, &[]);
    mocking_set_validators_delegations(&mut chain, 600, 300, 200);
    register_3_validators(&mut state, &env, &info, &chain);
    let info = mock_info(AGENT1, &[]);
    nft123_bond_on_validators(&mut state, &env, &info, &chain, 600, 300, 200);

    let info = mock_info(MANAGER1, &[]);
    let msg = ExecuteMsg::CollectAngelRewards {};
    let res = execute(&mut state, &env, &info, &chain, msg).unwrap();
    assert_eq!(res.attributes[0].key, "action");
    assert_eq!(res.attributes[0].value, "withdraw_delegation_rewards");
}

#[test]
fn _send_balance_treasury() {
    let mut state = instantiate_default();
    let env = mock_env();
    let mut chain = mock_chain();

    let info = mock_info(MANAGER1, &[]);
    mocking_set_validators_delegations(&mut chain, 600, 300, 200);
    register_3_validators(&mut state, &env, &info, &chain);
    let info = mock_info(AGENT1, &[]);
    nft123_bond_on_validators(&mut state, &env, &info, &chain, 600, 300, 200);

    let env_later = later(&env, WEEK_PLUS_HOUR);
    let info = mock_info(MANAGER1, &[]);
    let msg = ExecuteMsg::CollectAngelRewards {};
    let res = execute(&mut state, &env_later, &info, &chain, msg).unwrap();
    assert_eq!(res.attributes[0].key, "action");
    assert_eq!(res.attributes[0].value, "withdraw_delegation_rewards");

    // suppose the rewards received are 50
    chain.balance = 50;
}
