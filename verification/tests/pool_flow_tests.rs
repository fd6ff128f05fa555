//! The pooled flow of the staking ledger against a simulated chain account:
//! three positions bond, the ledger tracks the delegations, and an unbond
//! splits across the two largest validators.

use angel_staking::contract::{execute, instantiate, query};
use angel_staking::msg::{
    ChainInfo, Delegation, Env, ExecuteMsg, InstantiateMsg, MessageInfo, QueryAnswer, QueryMsg,
};
use angel_staking::state::{BlockInfo, Coin, Duration, State, ValidatorInfo};

const NATIVE_DENOM: &str = "ujunox";
const MANAGER1: &str = "juno148v3g2dpjeq6hwnlagmvq8pnqe5r9wjcrvel8u";
const AGENT1: &str = "juno15urq2dtp9qce4fyc85m6upwm9xul30492fasy3";
const TREASURY1: &str = "juno196ax4vc0lwpxndu9dyhvca7jhxp70rmcl99tyh";

const NFT_ID1: u128 = 1u128;
const NFT_ID2: u128 = 2u128;
const NFT_ID3: u128 = 3u128;

const VALIDATOR1: &str = "validator1";
const VALIDATOR2: &str = "validator2";
const VALIDATOR3: &str = "validator3";

const WEEK: Duration = Duration::Time(604800);

fn mock_env() -> Env {
    Env { block: BlockInfo { height: 12345, time: 1571797419879305533 } }
}

fn coin(amount: u128, denom: &str) -> Coin {
    Coin { denom: denom.to_string(), amount }
}

fn info(sender: &str, funds: &[Coin]) -> MessageInfo {
    MessageInfo { sender: sender.to_string(), funds: funds.to_vec() }
}

/// The mock chain: module delegations tracked by applying the ledger's
/// instructions by hand, as the staking module would.
fn mock_chain() -> ChainInfo {
    ChainInfo {
        bonded_denom: NATIVE_DENOM.to_string(),
        validator_set: vec![
            VALIDATOR1.to_string(),
            VALIDATOR2.to_string(),
            VALIDATOR3.to_string(),
        ],
        delegations: vec![],
        balance: 0,
    }
}

fn set_delegations(chain: &mut ChainInfo, val1: u128, val2: u128, val3: u128) {
    chain.delegations = vec![
        Delegation { validator: VALIDATOR1.to_string(), amount: coin(val1, NATIVE_DENOM) },
        Delegation { validator: VALIDATOR2.to_string(), amount: coin(val2, NATIVE_DENOM) },
        Delegation { validator: VALIDATOR3.to_string(), amount: coin(val3, NATIVE_DENOM) },
    ];
}

fn add_3_validators(state: &mut State, env: &Env, chain: &ChainInfo, sender: &str) {
    for v in [VALIDATOR1, VALIDATOR2, VALIDATOR3] {
        let msg = ExecuteMsg::AddValidator {
            address: v.to_string(),
            bond_denom: NATIVE_DENOM.to_string(),
            unbonding_period: WEEK,
        };
        execute(state, env, &info(sender, &[]), chain, msg).unwrap();
    }
}

fn get_validator_info(state: &State, env: &Env, chain: &ChainInfo, addr: &str) -> ValidatorInfo {
    match query(state, env, chain, QueryMsg::ValidatorInfo { address: addr.to_string() }).unwrap()
    {
        QueryAnswer::ValidatorInfo(vi) => vi,
        other => panic!("Unexpected answer: {:?}", other),
    }
}

fn get_bonded_by_nft(state: &State, env: &Env, chain: &ChainInfo, nft_id: &str) -> u128 {
    match query(state, env, chain, QueryMsg::BondedByNFT { nft_id: nft_id.to_string() }).unwrap()
    {
        QueryAnswer::Amount(a) => a,
        other => panic!("Unexpected answer: {:?}", other),
    }
}

fn get_bonded_on_validator(state: &State, env: &Env, chain: &ChainInfo, validator: &str) -> u128 {
    match query(
        state,
        env,
        chain,
        QueryMsg::BondedOnValidator { address: validator.to_string() },
    )
    .unwrap()
    {
        QueryAnswer::Amount(a) => a,
        other => panic!("Unexpected answer: {:?}", other),
    }
}

#[test]
fn bond_unbond_claim() {
    let (mut state, _) = instantiate(InstantiateMsg {
        agent: AGENT1.into(),
        manager: MANAGER1.into(),
        treasury: TREASURY1.into(),
    });
    let env = mock_env();
    let mut chain = mock_chain();

    add_3_validators(&mut state, &env, &chain, MANAGER1);
    let validator1_info = get_validator_info(&state, &env, &chain, VALIDATOR1);
    assert_eq!(
        validator1_info,
        ValidatorInfo {
            bond_denom: NATIVE_DENOM.into(),
            unbonding_period: WEEK,
            bonded: 0,
            unbonding: 0,
        }
    );

    // three positions bond; the ledger spreads them over the validators
    let msg = ExecuteMsg::Bond { nft_id: NFT_ID1 };
    execute(&mut state, &env, &info(AGENT1, &[coin(600, NATIVE_DENOM)]), &chain, msg).unwrap();
    let msg = ExecuteMsg::Bond { nft_id: NFT_ID2 };
    execute(&mut state, &env, &info(AGENT1, &[coin(400, NATIVE_DENOM)]), &chain, msg).unwrap();
    let msg = ExecuteMsg::Bond { nft_id: NFT_ID3 };
    execute(&mut state, &env, &info(AGENT1, &[coin(200, NATIVE_DENOM)]), &chain, msg).unwrap();
    assert_eq!(get_bonded_by_nft(&state, &env, &chain, &NFT_ID1.to_string()), 600);

    // bonding information recorded on the ledger
    assert_eq!(get_validator_info(&state, &env, &chain, VALIDATOR1).bonded, 600);
    assert_eq!(get_validator_info(&state, &env, &chain, VALIDATOR2).bonded, 400);
    assert_eq!(get_validator_info(&state, &env, &chain, VALIDATOR3).bonded, 200);

    // the chain applies the delegate instructions
    set_delegations(&mut chain, 600, 400, 200);

    // undelegating 600 splits between the two validators with the most stake
    let msg = ExecuteMsg::Unbond { nft_id: NFT_ID1, amount: 600 };
    execute(&mut state, &env, &info(AGENT1, &[]), &chain, msg).unwrap();

    // after the chain applies the undelegations the delegations change
    set_delegations(&mut chain, 300, 100, 200);
    assert_eq!(get_bonded_on_validator(&state, &env, &chain, VALIDATOR1), 300);

    assert_eq!(get_validator_info(&state, &env, &chain, VALIDATOR1).bonded, 300);
    assert_eq!(get_validator_info(&state, &env, &chain, VALIDATOR2).bonded, 100);
    assert_eq!(get_validator_info(&state, &env, &chain, VALIDATOR3).bonded, 200);
    let _ = NFT_ID2;
    let _ = NFT_ID3;
}
