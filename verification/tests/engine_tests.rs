//! Scenario and property checks: deterministic selection, split exactness,
//! the at-least-one-per-validator rule, double-unbond rejection, claim
//! exactness, re-registration rejection, and the error taxonomy.

use angel_staking::contract::{
    calc_validator_number, chosen_validator, execute, instantiate, query, _execute_transfer_balance,
};
use angel_staking::error::ContractError;
use angel_staking::msg::{
    ChainInfo, Delegation, Env, ExecuteMsg, InstantiateMsg, MessageInfo, OutMsg, QueryAnswer,
    QueryMsg,
};
use angel_staking::split::chosen_validators_unstake;
use angel_staking::state::{BlockInfo, Coin, Duration, State};
use angel_staking::text::dec_str;

fn mock_env() -> Env {
    Env { block: BlockInfo { height: 12345, time: 1571797419879305533 } }
}

fn coin(amount: u128, denom: &str) -> Coin {
    Coin { denom: denom.to_string(), amount }
}

fn info(sender: &str, funds: &[Coin]) -> MessageInfo {
    MessageInfo { sender: sender.to_string(), funds: funds.to_vec() }
}

fn chain_with(validators: &[&str]) -> ChainInfo {
    ChainInfo {
        bonded_denom: "ustake".to_string(),
        validator_set: validators.iter().map(|v| v.to_string()).collect(),
        delegations: vec![],
        balance: 0,
    }
}

fn setup(validators: &[&str]) -> (State, Env, ChainInfo) {
    let (mut state, _) = instantiate(InstantiateMsg {
        agent: "agent".into(),
        manager: "manager".into(),
        treasury: "treasury".into(),
    });
    let env = mock_env();
    let chain = chain_with(validators);
    for v in validators {
        execute(
            &mut state,
            &env,
            &info("manager", &[]),
            &chain,
            ExecuteMsg::AddValidator {
                address: v.to_string(),
                bond_denom: "ustake".to_string(),
                unbonding_period: Duration::Time(604800),
            },
        )
        .unwrap();
    }
    (state, env, chain)
}

fn bond(state: &mut State, env: &Env, chain: &ChainInfo, nft_id: u128, amount: u128) -> OutMsg {
    let res = execute(
        state,
        env,
        &info("agent", &[coin(amount, "ustake")]),
        chain,
        ExecuteMsg::Bond { nft_id },
    )
    .unwrap();
    res.messages[0].clone()
}

fn amount_of(state: &State, env: &Env, chain: &ChainInfo, msg: QueryMsg) -> u128 {
    match query(state, env, chain, msg).unwrap() {
        QueryAnswer::Amount(a) => a,
        other => panic!("Unexpected answer: {:?}", other),
    }
}

fn bonded_of(state: &State, env: &Env, chain: &ChainInfo, addr: &str) -> (u128, u128) {
    match query(state, env, chain, QueryMsg::ValidatorInfo { address: addr.to_string() }).unwrap()
    {
        QueryAnswer::ValidatorInfo(vi) => (vi.bonded, vi.unbonding),
        other => panic!("Unexpected answer: {:?}", other),
    }
}

#[test]
fn selection_is_deterministic_on_ties() {
    // three validators, all at zero: the least address in byte order wins
    let (mut state, env, chain) = setup(&["valc", "vala", "valb"]);
    let msg = bond(&mut state, &env, &chain, 1, 600);
    match msg {
        OutMsg::Delegate { validator, amount } => {
            assert_eq!(validator, "vala");
            assert_eq!(amount, coin(600, "ustake"));
        }
        other => panic!("Unexpected message: {:?}", other),
    }
    assert_eq!(amount_of(&state, &env, &chain, QueryMsg::BondedByNFT { nft_id: "1".into() }), 600);
}

#[test]
fn bonds_go_to_least_bonded() {
    let (mut state, env, chain) = setup(&["vala", "valb", "valc"]);
    bond(&mut state, &env, &chain, 1, 600);
    bond(&mut state, &env, &chain, 2, 400);
    bond(&mut state, &env, &chain, 3, 200);
    assert_eq!(bonded_of(&state, &env, &chain, "vala").0, 600);
    assert_eq!(bonded_of(&state, &env, &chain, "valb").0, 400);
    assert_eq!(bonded_of(&state, &env, &chain, "valc").0, 200);
    assert_eq!(amount_of(&state, &env, &chain, QueryMsg::Bonded {}), 1200);
}

#[test]
fn rebond_adds_to_position_total() {
    let (mut state, env, chain) = setup(&["vala", "valb"]);
    bond(&mut state, &env, &chain, 7, 100);
    bond(&mut state, &env, &chain, 7, 250);
    // the new bonded total is the old total plus the new amount, never
    // overwritten
    assert_eq!(amount_of(&state, &env, &chain, QueryMsg::BondedByNFT { nft_id: "7".into() }), 350);
    assert_eq!(amount_of(&state, &env, &chain, QueryMsg::Bonded {}), 350);
}

#[test]
fn unbond_splits_exactly() {
    let (mut state, env, chain) = setup(&["vala", "valb", "valc"]);
    bond(&mut state, &env, &chain, 1, 600);
    bond(&mut state, &env, &chain, 2, 400);
    bond(&mut state, &env, &chain, 3, 200);
    let res = execute(
        &mut state,
        &env,
        &info("agent", &[]),
        &chain,
        ExecuteMsg::Unbond { nft_id: 1, amount: 600 },
    )
    .unwrap();
    // three validators give a split of two; the two largest each cover 300
    assert_eq!(res.messages.len(), 2);
    assert_eq!(
        res.messages[0],
        OutMsg::Undelegate { validator: "vala".into(), amount: coin(300, "ustake") }
    );
    assert_eq!(
        res.messages[1],
        OutMsg::Undelegate { validator: "valb".into(), amount: coin(300, "ustake") }
    );
    assert_eq!(bonded_of(&state, &env, &chain, "vala"), (300, 300));
    assert_eq!(bonded_of(&state, &env, &chain, "valb"), (100, 300));
    assert_eq!(bonded_of(&state, &env, &chain, "valc"), (200, 0));
    assert_eq!(amount_of(&state, &env, &chain, QueryMsg::Unbonding {}), 600);
}

#[test]
fn split_plan_sums_match_for_any_distribution() {
    let (mut state, env, chain) = setup(&["vala", "valb", "valc"]);
    bond(&mut state, &env, &chain, 1, 600);
    bond(&mut state, &env, &chain, 2, 400);
    bond(&mut state, &env, &chain, 3, 200);
    let _ = env;
    // even plan: both shares cover the request exactly
    let plan = chosen_validators_unstake(&state, 600, "ustake".into(), 2).unwrap();
    let sum: u128 = plan.iter().map(|p| p.1.amount).sum();
    assert_eq!(sum, 600);
    // greedy fallback: only one validator covers 450, so whole amounts are
    // consumed in descending order
    let plan = chosen_validators_unstake(&state, 900, "ustake".into(), 2).unwrap();
    assert_eq!(plan.len(), 2);
    assert_eq!(plan[0].0, "vala");
    assert_eq!(plan[0].1.amount, 600);
    assert_eq!(plan[1].0, "valb");
    assert_eq!(plan[1].1.amount, 300);
    // an amount no plan covers exactly is rejected, never approximated
    let err = chosen_validators_unstake(&state, 701, "ustake".into(), 2).unwrap_err();
    assert_eq!(err, ContractError::UnableUnstakeAmount { amount: 701, number_validators: 2 });
    // more than the whole pool cannot be covered at all
    let err = chosen_validators_unstake(&state, 2000, "ustake".into(), 2).unwrap_err();
    assert_eq!(err, ContractError::UnableUnstakeAmount { amount: 2000, number_validators: 3 });
}

#[test]
fn split_count_largest_candidate() {
    let cases: [(u64, u64); 13] = [
        (0, 1),
        (1, 1),
        (2, 2),
        (3, 2),
        (4, 4),
        (5, 5),
        (6, 5),
        (7, 5),
        (8, 8),
        (9, 8),
        (10, 10),
        (11, 10),
        (100, 10),
    ];
    for (n, expected) in cases {
        assert_eq!(calc_validator_number(n, 1000).unwrap(), expected);
    }
}

#[test]
fn split_count_leaves_at_least_one_per_validator() {
    // for any amount covering the validator count, the per-validator share
    // of the chosen split size stays positive
    for n in 0u64..=20 {
        for amount in [n as u128, n as u128 + 1, 1000u128] {
            if amount >= n as u128 && amount >= 1 {
                let k = calc_validator_number(n, amount).unwrap() as u128;
                assert!(amount / k >= 1, "n={} amount={} k={}", n, amount, k);
            }
        }
    }
}

#[test]
fn double_unbond_is_rejected() {
    let (mut state, env, chain) = setup(&["vala"]);
    bond(&mut state, &env, &chain, 1, 100);
    execute(
        &mut state,
        &env,
        &info("agent", &[]),
        &chain,
        ExecuteMsg::Unbond { nft_id: 1, amount: 100 },
    )
    .unwrap();
    // the pair (position, validator) is still mid-unbonding: a second unbond
    // touching it is rejected for any amount
    bond(&mut state, &env, &chain, 1, 50);
    let err = execute(
        &mut state,
        &env,
        &info("agent", &[]),
        &chain,
        ExecuteMsg::Unbond { nft_id: 1, amount: 50 },
    )
    .unwrap_err();
    assert_eq!(
        err,
        ContractError::NFTAlreadyUnbonding { nft_id: "1".into(), val_addr: "vala".into() }
    );
    // the ledger is untouched by the rejected attempt
    assert_eq!(amount_of(&state, &env, &chain, QueryMsg::BondedByNFT { nft_id: "1".into() }), 50);
    assert_eq!(amount_of(&state, &env, &chain, QueryMsg::Unbonding {}), 100);
}

#[test]
fn claim_needs_exact_amount_and_balance() {
    let (mut state, env, mut chain) = setup(&["vala"]);
    bond(&mut state, &env, &chain, 1, 100);
    execute(
        &mut state,
        &env,
        &info("agent", &[]),
        &chain,
        ExecuteMsg::Unbond { nft_id: 1, amount: 100 },
    )
    .unwrap();
    let mut env_later = env.clone();
    env_later.block.time += 700000 * 1_000_000_000;
    chain.balance = 100;
    // a stale amount is rejected
    let err = execute(
        &mut state,
        &env_later,
        &info("agent", &[]),
        &chain,
        ExecuteMsg::Claim { nft_id: 1, sender: "bob".into(), amount: 70 },
    )
    .unwrap_err();
    assert_eq!(
        err,
        ContractError::RequestUnbondAmountMismatch {
            nft_id: "1".into(),
            requested: "70".into(),
            balance: "100".into(),
        }
    );
    // a short balance is the one retryable failure
    chain.balance = 99;
    let err = execute(
        &mut state,
        &env_later,
        &info("agent", &[]),
        &chain,
        ExecuteMsg::Claim { nft_id: 1, sender: "bob".into(), amount: 100 },
    )
    .unwrap_err();
    assert_eq!(err, ContractError::BalanceTooSmall {});
    // nothing matured yet at the original height
    chain.balance = 100;
    let err = execute(
        &mut state,
        &env,
        &info("agent", &[]),
        &chain,
        ExecuteMsg::Claim { nft_id: 1, sender: "bob".into(), amount: 100 },
    )
    .unwrap_err();
    assert_eq!(err, ContractError::NothingToClaim {});
    // the exact amount with a covering balance settles
    let res = execute(
        &mut state,
        &env_later,
        &info("agent", &[]),
        &chain,
        ExecuteMsg::Claim { nft_id: 1, sender: "bob".into(), amount: 100 },
    )
    .unwrap();
    assert_eq!(
        res.messages[0],
        OutMsg::Send { to_address: "bob".into(), amount: vec![coin(100, "ustake")] }
    );
    assert_eq!(amount_of(&state, &env, &chain, QueryMsg::Unbonding {}), 0);
    assert_eq!(amount_of(&state, &env, &chain, QueryMsg::TotalClaimed {}), 100);
}

#[test]
fn reregistration_always_fails() {
    let (mut state, env, chain) = setup(&["vala", "valb"]);
    let err = execute(
        &mut state,
        &env,
        &info("manager", &[]),
        &chain,
        ExecuteMsg::AddValidator {
            address: "vala".to_string(),
            bond_denom: "ustake".to_string(),
            // a different period must not silently update the record
            unbonding_period: Duration::Time(60),
        },
    )
    .unwrap_err();
    assert_eq!(err, ContractError::ValidatorAlreadyRegistered { validator: "vala".into() });
    match query(&state, &env, &chain, QueryMsg::ValidatorInfo { address: "vala".into() }).unwrap()
    {
        QueryAnswer::ValidatorInfo(vi) => {
            assert_eq!(vi.unbonding_period, Duration::Time(604800));
        }
        other => panic!("Unexpected answer: {:?}", other),
    }
}

#[test]
fn remove_sole_staked_validator_fails() {
    let (mut state, env, mut chain) = setup(&["vala"]);
    bond(&mut state, &env, &chain, 1, 100);
    chain.delegations =
        vec![Delegation { validator: "vala".into(), amount: coin(100, "ustake") }];
    let err = execute(
        &mut state,
        &env,
        &info("manager", &[]),
        &chain,
        ExecuteMsg::RemoveValidator { address: "vala".into() },
    )
    .unwrap_err();
    assert_eq!(err, ContractError::OnlyOneValidator {});
}

#[test]
fn remove_validator_mid_unbonding_fails() {
    let (mut state, env, mut chain) = setup(&["vala", "valb"]);
    bond(&mut state, &env, &chain, 1, 100);
    execute(
        &mut state,
        &env,
        &info("agent", &[]),
        &chain,
        ExecuteMsg::Unbond { nft_id: 1, amount: 100 },
    )
    .unwrap();
    // the pending claim still references the validator, so it cannot go
    chain.delegations = vec![Delegation { validator: "vala".into(), amount: coin(0, "ustake") }];
    let err = execute(
        &mut state,
        &env,
        &info("manager", &[]),
        &chain,
        ExecuteMsg::RemoveValidator { address: "vala".into() },
    )
    .unwrap_err();
    assert!(matches!(err, ContractError::CustomError { .. }), "{:?}", err);
}

#[test]
fn remove_validator_redelegates_stake() {
    let (mut state, env, mut chain) = setup(&["vala", "valb", "valc"]);
    bond(&mut state, &env, &chain, 1, 600);
    bond(&mut state, &env, &chain, 2, 400);
    bond(&mut state, &env, &chain, 3, 200);
    chain.delegations = vec![
        Delegation { validator: "vala".into(), amount: coin(600, "ustake") },
        Delegation { validator: "valb".into(), amount: coin(400, "ustake") },
        Delegation { validator: "valc".into(), amount: coin(200, "ustake") },
    ];
    let res = execute(
        &mut state,
        &env,
        &info("manager", &[]),
        &chain,
        ExecuteMsg::RemoveValidator { address: "vala".into() },
    )
    .unwrap();
    // the whole stake goes to the least-bonded remaining validator
    assert_eq!(
        res.messages[0],
        OutMsg::Redelegate {
            src_validator: "vala".into(),
            dst_validator: "valc".into(),
            amount: coin(600, "ustake"),
        }
    );
    assert_eq!(bonded_of(&state, &env, &chain, "valc").0, 800);
    let err = query(&state, &env, &chain, QueryMsg::ValidatorInfo { address: "vala".into() })
        .unwrap_err();
    assert_eq!(err, ContractError::NotRegisteredValidator { address: "vala".into() });
    // conservation holds across the move
    assert_eq!(amount_of(&state, &env, &chain, QueryMsg::Bonded {}), 1200);
}

#[test]
fn state_mismatch_blocks_removal() {
    let (mut state, env, mut chain) = setup(&["vala", "valb"]);
    bond(&mut state, &env, &chain, 1, 100);
    chain.delegations =
        vec![Delegation { validator: "vala".into(), amount: coin(77, "ustake") }];
    let err = execute(
        &mut state,
        &env,
        &info("manager", &[]),
        &chain,
        ExecuteMsg::RemoveValidator { address: "vala".into() },
    )
    .unwrap_err();
    assert_eq!(
        err,
        ContractError::StateQueryDelegationMismatch { state_amount: 100, delegation_amount: 77 }
    );
}

#[test]
fn bond_payment_is_validated() {
    let (mut state, env, chain) = setup(&["vala"]);
    let err = execute(
        &mut state,
        &env,
        &info("agent", &[]),
        &chain,
        ExecuteMsg::Bond { nft_id: 1 },
    )
    .unwrap_err();
    assert_eq!(err, ContractError::NoFunds {});
    let err = execute(
        &mut state,
        &env,
        &info("agent", &[coin(0, "ustake")]),
        &chain,
        ExecuteMsg::Bond { nft_id: 1 },
    )
    .unwrap_err();
    assert_eq!(err, ContractError::NoFunds {});
    let err = execute(
        &mut state,
        &env,
        &info("stranger", &[coin(5, "ustake")]),
        &chain,
        ExecuteMsg::Bond { nft_id: 1 },
    )
    .unwrap_err();
    assert_eq!(err, ContractError::Unauthorized {});
}

#[test]
fn bond_without_validators_fails() {
    let (mut state, env, chain) = setup(&[]);
    let err = execute(
        &mut state,
        &env,
        &info("agent", &[coin(100, "ustake")]),
        &chain,
        ExecuteMsg::Bond { nft_id: 1 },
    )
    .unwrap_err();
    assert!(matches!(err, ContractError::CustomError { .. }), "{:?}", err);
}

#[test]
fn unbond_unknown_position_fails() {
    let (mut state, env, chain) = setup(&["vala"]);
    let err = execute(
        &mut state,
        &env,
        &info("agent", &[]),
        &chain,
        ExecuteMsg::Unbond { nft_id: 9, amount: 10 },
    )
    .unwrap_err();
    assert_eq!(err, ContractError::NFTNotRegistered { nft_id: "9".into() });
}

#[test]
fn bond_check_flags_differences() {
    let (mut state, env, mut chain) = setup(&["vala"]);
    bond(&mut state, &env, &chain, 1, 100);
    chain.delegations =
        vec![Delegation { validator: "vala".into(), amount: coin(90, "ustake") }];
    let err = execute(
        &mut state,
        &env,
        &info("manager", &[]),
        &chain,
        ExecuteMsg::BondCheck {},
    )
    .unwrap_err();
    assert_eq!(err, ContractError::BondedDiffer { total_bonded: 90, state_total_bonded: 100 });
    chain.delegations = vec![
        Delegation { validator: "vala".into(), amount: coin(50, "ustake") },
        Delegation { validator: "valb".into(), amount: coin(50, "other") },
    ];
    let err = execute(
        &mut state,
        &env,
        &info("manager", &[]),
        &chain,
        ExecuteMsg::BondCheck {},
    )
    .unwrap_err();
    assert_eq!(
        err,
        ContractError::DifferentBondDenom { denom1: "ustake".into(), denom2: "other".into() }
    );
}

#[test]
fn reward_sweep_targets_staked_validators_in_order() {
    let (mut state, env, chain) = setup(&["vala", "valb", "valc"]);
    bond(&mut state, &env, &chain, 1, 600);
    bond(&mut state, &env, &chain, 2, 400);
    let res = execute(
        &mut state,
        &env,
        &info("manager", &[]),
        &chain,
        ExecuteMsg::CollectAngelRewards {},
    )
    .unwrap();
    assert_eq!(res.messages.len(), 3);
    assert_eq!(res.messages[0], OutMsg::SetWithdrawAddress { address: "treasury".into() });
    assert_eq!(res.messages[1], OutMsg::WithdrawDelegatorReward { validator: "vala".into() });
    assert_eq!(res.messages[2], OutMsg::WithdrawDelegatorReward { validator: "valb".into() });
}

#[test]
fn transfer_balance_sends_everything_to_treasury() {
    let (state, env, mut chain) = setup(&["vala"]);
    let err =
        _execute_transfer_balance(&state, &env, &info("manager", &[]), &chain).unwrap_err();
    assert!(matches!(err, ContractError::CustomError { .. }), "{:?}", err);
    chain.balance = 50;
    let res = _execute_transfer_balance(&state, &env, &info("manager", &[]), &chain).unwrap();
    assert_eq!(
        res.messages[0],
        OutMsg::Send { to_address: "treasury".into(), amount: vec![coin(50, "ustake")] }
    );
    assert_eq!(res.attributes[3].value, "50");
}

#[test]
fn chosen_validator_excludes_and_orders() {
    let (mut state, env, chain) = setup(&["vala", "valb", "valc"]);
    bond(&mut state, &env, &chain, 1, 600);
    bond(&mut state, &env, &chain, 2, 400);
    bond(&mut state, &env, &chain, 3, 200);
    assert_eq!(chosen_validator(&state, None).unwrap(), "valc");
    assert_eq!(chosen_validator(&state, Some("valc".to_string())).unwrap(), "valb");
    let (empty_state, _, _) = setup(&[]);
    assert!(chosen_validator(&empty_state, None).is_err());
}

#[test]
fn queries_report_ledger_and_chain_data() {
    let (mut state, env, mut chain) = setup(&["vala"]);
    bond(&mut state, &env, &chain, 1, 100);
    execute(
        &mut state,
        &env,
        &info("agent", &[]),
        &chain,
        ExecuteMsg::Unbond { nft_id: 1, amount: 100 },
    )
    .unwrap();
    chain.balance = 40;
    match query(&state, &env, &chain, QueryMsg::Agent {}).unwrap() {
        QueryAnswer::Address(a) => assert_eq!(a, "agent"),
        other => panic!("Unexpected answer: {:?}", other),
    }
    match query(&state, &env, &chain, QueryMsg::Manager {}).unwrap() {
        QueryAnswer::Address(a) => assert_eq!(a, "manager"),
        other => panic!("Unexpected answer: {:?}", other),
    }
    match query(&state, &env, &chain, QueryMsg::RewardsBalance {}).unwrap() {
        QueryAnswer::Balance(c) => assert_eq!(c, coin(40, "ustake")),
        other => panic!("Unexpected answer: {:?}", other),
    }
    // one claim per touched validator, maturing after its unbonding period
    match query(&state, &env, &chain, QueryMsg::Claims { nft_id: "1".into() }).unwrap() {
        QueryAnswer::Claims(c) => {
            assert_eq!(c.claims.len(), 1);
            assert_eq!(c.claims[0].amount, 100);
            assert_eq!(c.claims[0].release_at, Duration::Time(604800).after(&env.block));
        }
        other => panic!("Unexpected answer: {:?}", other),
    }
    // a fully unbonded position no longer has a bonded amount
    assert_eq!(amount_of(&state, &env, &chain, QueryMsg::BondedByNFT { nft_id: "1".into() }), 0);
}

#[test]
fn decimal_rendering_is_exact() {
    assert_eq!(dec_str(0), "0");
    assert_eq!(dec_str(7), "7");
    assert_eq!(dec_str(105), "105");
    assert_eq!(dec_str(1100), "1100");
    assert_eq!(dec_str(u128::MAX), "340282366920938463463374607431768211455");
}
