//! The allocation engine: bonding, unbonding, claiming, validator management
//! and the queries, as verified transitions over [`State`].  Each operation
//! takes the ledger by reference together with the chain data it reads, and
//! returns either a full transition plus the instructions to send, or a typed
//! error with the ledger untouched.

use vstd::prelude::*;
use vstd::string::StringExecFns;

use crate::error::ContractError;
use crate::msg::{
    Attribute, ChainInfo, ClaimsResponse, Delegation, Env, ExecuteMsg, InstantiateMsg,
    MessageInfo, OutMsg, QueryAnswer, QueryMsg, Response, spec_delegation_for, spec_set_contains,
};
use crate::order::{
    lemma_vr_key_lt_irrefl, lemma_vr_key_lt_total, lemma_vr_key_lt_trans, sort_validators_desc,
    spec_sort_desc, vr_key_lt, vr_key_lt_exec,
};
use crate::split::{
    chosen_validators_unstake, lemma_plan_item_le_sum, lemma_plan_share_absent,
    lemma_unstake_plan_props, plan_entry_ok, plan_share_for, plan_sum, plan_view,
    spec_first_conflict, spec_unstake_plan,
};
use crate::state::{
    BlockInfo, Claim, Coin, lemma_position_amount_absent, lemma_position_amount_unique,
    PositionBond, spec_after, spec_after_fits,
    spec_has_entry, spec_has_position, spec_has_validator, spec_position_amount,
    spec_validator_for, State, UnbondingEntry, ValidatorInfo, ValidatorRecord,
};
use crate::sums::{
    lemma_sum_vr_bonded_remove, lemma_sum_vr_unbonding_remove, lemma_sum_vr_bonded_pair_bound,
    lemma_sum_ue_for_validator_bound, lemma_sum_ue_for_validator_nonneg,
    lemma_sum_pb_amount_bound, lemma_sum_pb_amount_push, lemma_sum_pb_amount_remove,
    lemma_sum_pb_amount_update, lemma_sum_ue_amount_push, lemma_sum_ue_for_validator_absent,
    lemma_sum_ue_for_validator_push, lemma_sum_vr_bonded_bound, lemma_sum_vr_bonded_push,
    lemma_sum_vr_bonded_update, lemma_sum_vr_unbonding_bound, lemma_sum_vr_unbonding_push,
    lemma_sum_vr_unbonding_update, lemma_sum_ue_matured_bounds, lemma_sum_ue_matured_prefix,
    lemma_remove_matured_props, spec_remove_matured, sum_ue_amount, sum_ue_for_validator,
    sum_ue_matured, sum_ue_matured_for_validator, sum_vr_bonded, sum_vr_unbonding,
};
use crate::text::{dec_str, spec_dec_str};
use vstd::arithmetic::div_mod::{lemma_fundamental_div_mod, lemma_mod_bound};

verus! {

/// An attribute with the given literal key.
fn attr(key: &str, value: String) -> (a: Attribute)
    ensures
        a.key@ == key@,
        a.value == value,
{
    Attribute { key: key.to_owned(), value }
}

/// Whether the chain's validator set holds `addr`.
fn set_contains(set: &Vec<String>, addr: &String) -> (r: bool)
    ensures
        r == spec_set_contains(set@, addr@),
{
    let n = set.len();
    let mut i: usize = 0;
    while i < n
        invariant
            i <= n,
            n == set@.len(),
            forall|j: int| 0 <= j < i ==> set@[j]@ != addr@,
        decreases n - i,
    {
        if set[i] == *addr {
            return true;
        }
        i = i + 1;
    }
    false
}

/// Sets up an empty ledger under the three privileged identities.  Validation
/// of the identities as addresses is the caller's business; the ledger only
/// stores them.
pub fn instantiate(msg: InstantiateMsg) -> (r: (State, Response))
    ensures
        r.0.wf(),
        r.0.validators@.len() == 0,
        r.0.nft_bonded@.len() == 0,
        r.0.unbonding_entries@.len() == 0,
        r.0.bonded == 0,
        r.0.unbonding == 0,
        r.0.total_bonded == 0,
        r.0.total_claimed == 0,
        r.0.agent == msg.agent,
        r.0.manager == msg.manager,
        r.0.treasury == msg.treasury,
        r.1.messages@.len() == 0,
        r.1.attributes@.len() == 1,
        r.1.attributes@[0].key@ == "action"@,
        r.1.attributes@[0].value@ == "instantiate"@,
{
    let state = State::new(msg.agent, msg.manager, msg.treasury);
    let mut attributes: Vec<Attribute> = Vec::new();
    attributes.push(attr("action", "instantiate".to_owned()));
    (state, Response { messages: Vec::new(), attributes })
}

/// Whether the record at `i` may be chosen when `excluded` is ruled out.
pub open spec fn spec_eligible(rec: ValidatorRecord, excluded: Option<String>) -> bool {
    match excluded {
        Option::None => true,
        Option::Some(e) => rec.address@ != e@,
    }
}

/// Whether `addr` is the eligible validator with the least `(bonded, address)`
/// key in `s`.
pub open spec fn spec_is_chosen(
    s: Seq<ValidatorRecord>,
    excluded: Option<String>,
    addr: Seq<char>,
) -> bool {
    exists|i: int|
        0 <= i < s.len() && s[i].address@ == addr && spec_eligible(s[i], excluded) && forall|
            j: int,
        |
            0 <= j < s.len() && j != i && spec_eligible(s[j], excluded) ==> vr_key_lt(s[i], s[j])
}

/// Picks the validator a new delegation goes to: the eligible validator with
/// the least bonded amount, ties broken by the least address in byte order.
/// Fails when no validator is registered, or only the excluded one is.
pub fn chosen_validator(state: &State, excluded_address: Option<String>) -> (r: Result<
    String,
    ContractError,
>)
    requires
        state.wf(),
    ensures
        (exists|i: int|
            0 <= i < state.validators@.len() && spec_eligible(
                state.validators@[i],
                excluded_address,
            )) <==> r is Ok,
        r matches Ok(addr) ==> spec_is_chosen(state.validators@, excluded_address, addr@),
        r matches Err(e) ==> e matches ContractError::CustomError { .. },
{
    let n = state.validators.len();
    let mut best: Option<usize> = None;
    let mut i: usize = 0;
    while i < n
        invariant
            i <= n,
            n == state.validators@.len(),
            match best {
                Option::Some(b) => b < i && spec_eligible(
                    state.validators@[b as int],
                    excluded_address,
                ) && forall|j: int|
                    0 <= j < i && spec_eligible(state.validators@[j], excluded_address)
                        ==> !vr_key_lt(state.validators@[j], state.validators@[b as int]),
                Option::None => forall|j: int|
                    0 <= j < i ==> !spec_eligible(state.validators@[j], excluded_address),
            },
        decreases n - i,
    {
        let rec = &state.validators[i];
        let skip = match &excluded_address {
            Option::Some(e) => rec.address == *e,
            Option::None => false,
        };
        if !skip {
            match best {
                Option::None => {
                    proof {
                        lemma_vr_key_lt_irrefl(state.validators@[i as int]);
                    }
                    best = Some(i);
                },
                Option::Some(b) => {
                    if vr_key_lt_exec(rec, &state.validators[b]) {
                        proof {
                            assert forall|j: int|
                                0 <= j < i && spec_eligible(
                                    state.validators@[j],
                                    excluded_address,
                                ) implies !vr_key_lt(
                                state.validators@[j],
                                state.validators@[i as int],
                            ) by {
                                if vr_key_lt(state.validators@[j], state.validators@[i as int]) {
                                    lemma_vr_key_lt_trans(
                                        state.validators@[j],
                                        state.validators@[i as int],
                                        state.validators@[b as int],
                                    );
                                }
                            }
                            lemma_vr_key_lt_irrefl(state.validators@[i as int]);
                        }
                        best = Some(i);
                    }
                },
            }
        }
        i = i + 1;
    }
    match best {
        Option::Some(b) => {
            proof {
                assert forall|j: int|
                    0 <= j < n && j != b && spec_eligible(
                        state.validators@[j],
                        excluded_address,
                    ) implies vr_key_lt(state.validators@[b as int], state.validators@[j]) by {
                    lemma_vr_key_lt_total(state.validators@[b as int], state.validators@[j]);
                }
            }
            Ok(state.validators[b].address.clone())
        },
        Option::None => Err(
            ContractError::CustomError { val: "no validator can be chosen".to_owned() },
        ),
    }
}

/// The single sent coin, or why the payment is rejected: nothing sent (or a
/// zero amount), or more than one coin.
pub open spec fn spec_one_coin(funds: Seq<Coin>) -> Result<Coin, ContractError> {
    if funds.len() == 0 {
        Err(ContractError::NoFunds {})
    } else if funds.len() == 1 {
        if funds[0].amount == 0 {
            Err(ContractError::NoFunds {})
        } else {
            Ok(funds[0])
        }
    } else {
        Err(ContractError::MultipleDenoms {})
    }
}

/// Validates that exactly one coin with a nonzero amount was sent.
fn one_coin(info: &MessageInfo) -> (r: Result<Coin, ContractError>)
    ensures
        r == spec_one_coin(info.funds@),
{
    if info.funds.len() == 0 {
        Err(ContractError::NoFunds {})
    } else if info.funds.len() == 1 {
        if info.funds[0].amount == 0 {
            Err(ContractError::NoFunds {})
        } else {
            Ok(info.funds[0].clone())
        }
    } else {
        Err(ContractError::MultipleDenoms {})
    }
}

/// The machine-range conditions a bond needs: if the payment is acceptable,
/// the pool counters must not overflow when it is added.
pub open spec fn bond_fits(pre: State, funds: Seq<Coin>) -> bool {
    spec_one_coin(funds) matches Ok(c) ==> pre.bonded + c.amount <= u128::MAX
        && pre.total_bonded + c.amount <= u128::MAX
}

/// What a successful bond of `amount` under position id `nft` on validator
/// `target` does to the ledger.
pub open spec fn bond_post(
    pre: State,
    post: State,
    nft: Seq<char>,
    amount: int,
    target: Seq<char>,
) -> bool {
    &&& (exists|i: int|
        0 <= i < pre.validators@.len() && pre.validators@[i].address@ == target
            && post.validators@ == pre.validators@.update(
            i,
            ValidatorRecord {
                address: pre.validators@[i].address,
                info: ValidatorInfo {
                    bond_denom: pre.validators@[i].info.bond_denom,
                    unbonding_period: pre.validators@[i].info.unbonding_period,
                    bonded: (pre.validators@[i].info.bonded + amount) as u128,
                    unbonding: pre.validators@[i].info.unbonding,
                },
            },
        ))
    &&& (if spec_has_position(pre.nft_bonded@, nft) {
        exists|j: int|
            0 <= j < pre.nft_bonded@.len() && pre.nft_bonded@[j].nft_id@ == nft
                && post.nft_bonded@ == pre.nft_bonded@.update(
                j,
                PositionBond {
                    nft_id: pre.nft_bonded@[j].nft_id,
                    amount: (pre.nft_bonded@[j].amount + amount) as u128,
                },
            )
    } else {
        post.nft_bonded@.len() == pre.nft_bonded@.len() + 1 && post.nft_bonded@.drop_last()
            == pre.nft_bonded@ && post.nft_bonded@.last().nft_id@ == nft
            && post.nft_bonded@.last().amount == amount
    })
    &&& post.bonded == pre.bonded + amount
    &&& post.total_bonded == pre.total_bonded + amount
    &&& post.unbonding == pre.unbonding
    &&& post.total_claimed == pre.total_claimed
    &&& post.number_validators == pre.number_validators
    &&& post.agent == pre.agent
    &&& post.manager == pre.manager
    &&& post.treasury == pre.treasury
    &&& post.unbonding_entries@ == pre.unbonding_entries@
}

/// Bonds the funds sent along: the whole payment is delegated to the
/// registered validator with the least bonded amount, and the position's
/// bonded total grows by it.  Only the agent may call; the payment must be a
/// single nonzero coin of the chain's bondable denomination, and at least one
/// validator must be registered.
pub fn execute_bond(
    state: &mut State,
    _env: &Env,
    info: &MessageInfo,
    chain: &ChainInfo,
    nft_id: u128,
) -> (r: Result<Response, ContractError>)
    requires
        old(state).wf(),
        bond_fits(*old(state), info.funds@),
    ensures
        final(state).wf(),
        r is Err ==> *final(state) == *old(state),
        info.sender@ != old(state).agent@ ==> r == Err::<Response, ContractError>(
            ContractError::Unauthorized {},
        ),
        (info.sender@ == old(state).agent@ && spec_one_coin(info.funds@) is Err) ==> r
            == Err::<Response, ContractError>(spec_one_coin(info.funds@)->Err_0),
        (info.sender@ == old(state).agent@ && spec_one_coin(info.funds@) is Ok && spec_one_coin(
            info.funds@,
        )->Ok_0.denom@ != chain.bonded_denom@) ==> r == Err::<Response, ContractError>(
            ContractError::InvalidCoin {},
        ),
        (info.sender@ == old(state).agent@ && spec_one_coin(info.funds@) is Ok && spec_one_coin(
            info.funds@,
        )->Ok_0.denom@ == chain.bonded_denom@ && old(state).validators@.len() == 0) ==> (r
            matches Err(e) && e matches ContractError::CustomError { .. }),
        (info.sender@ == old(state).agent@ && spec_one_coin(info.funds@) is Ok && spec_one_coin(
            info.funds@,
        )->Ok_0.denom@ == chain.bonded_denom@ && old(state).validators@.len() > 0) ==> (r
            matches Ok(resp) && {
            let c = spec_one_coin(info.funds@)->Ok_0;
            &&& resp.messages@.len() == 1
            &&& resp.messages@[0] matches OutMsg::Delegate { validator, amount } && {
                &&& spec_is_chosen(old(state).validators@, Option::None, validator@)
                &&& amount == c
                &&& bond_post(
                    *old(state),
                    *final(state),
                    spec_dec_str(nft_id as nat),
                    c.amount as int,
                    validator@,
                )
            }
            &&& resp.attributes@.len() == 4
            &&& resp.attributes@[0].key@ == "action"@ && resp.attributes@[0].value@ == "bond"@
            &&& resp.attributes@[1].key@ == "from"@ && resp.attributes@[1].value@ == spec_dec_str(
                nft_id as nat,
            )
            &&& resp.attributes@[2].key@ == "bonded"@ && resp.attributes@[2].value@
                == spec_dec_str(c.amount as nat)
            &&& resp.attributes@[3].key@ == "validator"@
        }),
{
    if info.sender != state.agent {
        return Err(ContractError::Unauthorized {});
    }
    let d_coin = match one_coin(info) {
        Ok(c) => c,
        Err(e) => {
            return Err(e);
        },
    };
    if d_coin.denom != chain.bonded_denom {
        return Err(ContractError::InvalidCoin {});
    }
    let validator_address = match chosen_validator(state, None) {
        Ok(a) => a,
        Err(e) => {
            return Err(e);
        },
    };
    let amount = d_coin.amount;

    proof {
        assert(spec_has_validator(state.validators@, validator_address@));
    }
    let vi = state.find_validator(&validator_address).unwrap();
    proof {
        lemma_sum_vr_bonded_bound(state.validators@, vi as int);
    }
    let old_rec = &state.validators[vi];
    let new_rec = ValidatorRecord {
        address: old_rec.address.clone(),
        info: ValidatorInfo {
            bond_denom: old_rec.info.bond_denom.clone(),
            unbonding_period: old_rec.info.unbonding_period,
            bonded: old_rec.info.bonded + amount,
            unbonding: old_rec.info.unbonding,
        },
    };
    proof {
        lemma_sum_vr_bonded_update(state.validators@, vi as int, new_rec);
        lemma_sum_vr_unbonding_update(state.validators@, vi as int, new_rec);
    }
    state.validators[vi] = new_rec;

    let key = dec_str(nft_id);
    match state.find_position(&key) {
        Some(j) => {
            proof {
                lemma_sum_pb_amount_bound(state.nft_bonded@, j as int);
            }
            let new_pb = PositionBond {
                nft_id: state.nft_bonded[j].nft_id.clone(),
                amount: state.nft_bonded[j].amount + amount,
            };
            proof {
                lemma_sum_pb_amount_update(state.nft_bonded@, j as int, new_pb);
            }
            state.nft_bonded[j] = new_pb;
        },
        None => {
            let new_pb = PositionBond { nft_id: key.clone(), amount };
            proof {
                lemma_sum_pb_amount_push(state.nft_bonded@, new_pb);
            }
            state.nft_bonded.push(new_pb);
            proof {
                assert(state.nft_bonded@.drop_last() =~= old(state).nft_bonded@);
            }
        },
    }

    state.bonded = state.bonded + amount;
    state.total_bonded = state.total_bonded + amount;

    proof {
        assert forall|i: int| 0 <= i < state.unbonding_entries@.len() implies spec_has_validator(
            state.validators@,
            state.unbonding_entries@[i].validator@,
        ) by {
            let v = state.unbonding_entries@[i].validator@;
            let j = choose|j: int|
                0 <= j < old(state).validators@.len() && old(state).validators@[j].address@ == v;
            assert(state.validators@[j].address@ == v);
        }
        assert forall|i: int| 0 <= i < state.validators@.len() implies
            state.validators@[i].info.unbonding == crate::sums::sum_ue_for_validator(
            state.unbonding_entries@,
            state.validators@[i].address@,
        ) by {
            assert(old(state).validators@[i].info.unbonding == crate::sums::sum_ue_for_validator(
                old(state).unbonding_entries@,
                old(state).validators@[i].address@,
            ));
        }
    }

    let mut messages: Vec<OutMsg> = Vec::new();
    messages.push(OutMsg::Delegate { validator: validator_address.clone(), amount: d_coin });
    let mut attributes: Vec<Attribute> = Vec::new();
    attributes.push(attr("action", "bond".to_owned()));
    attributes.push(attr("from", key));
    attributes.push(attr("bonded", dec_str(amount)));
    attributes.push(attr("validator", validator_address));
    Ok(Response { messages, attributes })
}

/// Ordered candidate sizes for splitting one unbond over several validators:
/// powers of two, five, or products of both, so that dividing an amount by the
/// chosen size avoids repeating decimals.
pub open spec fn spec_split_candidates() -> Seq<u64> {
    seq![1u64, 2u64, 4u64, 5u64, 8u64, 10u64]
}

/// The number of validators an unbond is split across: the largest candidate
/// from `spec_split_candidates` that is at most `number_validators`, and `1`
/// when no candidate fits.
pub open spec fn spec_split_count(number_validators: u64) -> u64 {
    if 10 <= number_validators {
        10u64
    } else if 8 <= number_validators {
        8u64
    } else if 5 <= number_validators {
        5u64
    } else if 4 <= number_validators {
        4u64
    } else if 2 <= number_validators {
        2u64
    } else {
        1u64
    }
}

/// The candidate split size at position `j` of `spec_split_candidates`.
fn split_candidate(j: usize) -> (c: u64)
    requires
        j < 6,
    ensures
        c == spec_split_candidates()[j as int],
{
    match j {
        0 => 1,
        1 => 2,
        2 => 4,
        3 => 5,
        4 => 8,
        _ => 10,
    }
}

/// How many validators an unbond of `_amount` is split across, given the
/// number of registered validators.  Never errs; the `Result` shape matches
/// the other ledger operations.
pub fn calc_validator_number(number_validators: u64, _amount: u128) -> (r: Result<
    u64,
    ContractError,
>)
    ensures
        r matches Ok(k) && k == spec_split_count(number_validators),
{
    let mut i: usize = 6;
    while i > 1
        invariant
            1 <= i <= 6,
            forall|j: int| i <= j < 6 ==> spec_split_candidates()[j] > number_validators,
        decreases i,
    {
        let c = split_candidate(i - 1);
        if c <= number_validators {
            return Ok(c);
        }
        i = i - 1;
    }
    proof {
        assert(spec_split_candidates()[1] == 2);
    }
    Ok(1)
}

/// The split plan an unbond of `amount` commits, as decided by the registered
/// validators and the validator counter.
pub open spec fn unbond_plan_of(pre: State, amount: u128, denom: Seq<char>) -> Result<
    Seq<(Seq<char>, int)>,
    ContractError,
> {
    spec_unstake_plan(pre.validators@, amount, denom, spec_split_count(pre.number_validators))
}

/// The machine-range conditions an unbond needs: the unbonding pool counter
/// must not overflow, and every registered validator's release time must be
/// representable.
pub open spec fn unbond_fits(pre: State, amount: u128, env: Env) -> bool {
    &&& pre.unbonding + amount <= u128::MAX
    &&& forall|i: int|
        0 <= i < pre.validators@.len() ==> spec_after_fits(
            pre.validators@[i].info.unbonding_period,
            env.block,
        )
}

/// What a successful unbond of position `nft` does to the ledger, given the
/// committed plan: every touched validator moves its share from `bonded` to
/// `unbonding`, one unbonding entry (the claim) is appended per share with
/// the validator's own release time, the position is deleted, and the pool
/// totals move accordingly.
pub open spec fn unbond_post(
    pre: State,
    post: State,
    nft: Seq<char>,
    amount: u128,
    plan: Seq<(Seq<char>, int)>,
    b: BlockInfo,
) -> bool {
    &&& post.validators@.len() == pre.validators@.len()
    &&& forall|i: int|
        0 <= i < pre.validators@.len() ==> post.validators@[i] == (ValidatorRecord {
            address: pre.validators@[i].address,
            info: ValidatorInfo {
                bond_denom: pre.validators@[i].info.bond_denom,
                unbonding_period: pre.validators@[i].info.unbonding_period,
                bonded: (pre.validators@[i].info.bonded - plan_share_for(
                    plan,
                    pre.validators@[i].address@,
                )) as u128,
                unbonding: (pre.validators@[i].info.unbonding + plan_share_for(
                    plan,
                    pre.validators@[i].address@,
                )) as u128,
            },
        })
    &&& post.unbonding_entries@.len() == pre.unbonding_entries@.len() + plan.len()
    &&& post.unbonding_entries@.take(pre.unbonding_entries@.len() as int)
        == pre.unbonding_entries@
    &&& forall|t: int|
        #![trigger plan[t]]
        0 <= t < plan.len() ==> {
            let e = post.unbonding_entries@[pre.unbonding_entries@.len() + t];
            &&& e.nft_id@ == nft
            &&& e.validator@ == plan[t].0
            &&& e.amount == plan[t].1
            &&& e.release_at == spec_after(
                spec_validator_for(pre.validators@, plan[t].0).info.unbonding_period,
                b,
            )
        }
    &&& (exists|j: int|
        0 <= j < pre.nft_bonded@.len() && pre.nft_bonded@[j].nft_id@ == nft && post.nft_bonded@
            == pre.nft_bonded@.remove(j))
    &&& post.bonded == pre.bonded - amount
    &&& post.unbonding == pre.unbonding + amount
    &&& post.total_bonded == pre.total_bonded
    &&& post.total_claimed == pre.total_claimed
    &&& post.number_validators == pre.number_validators
    &&& post.agent == pre.agent
    &&& post.manager == pre.manager
    &&& post.treasury == pre.treasury
}

/// Unbonds a position's whole stake: the amount must equal the position's
/// recorded total (partial unbonding is not supported).  The amount is split
/// across validators by the split plan, each share starts unbonding on its
/// validator with a claim maturing after that validator's unbonding period,
/// and the position record is deleted.  A pair already mid-unbonding rejects
/// the whole request.  Only the agent may call.
#[verifier::rlimit(100)]
pub fn execute_unbond(
    state: &mut State,
    env: &Env,
    info: &MessageInfo,
    chain: &ChainInfo,
    nft_id: u128,
    amount: u128,
) -> (r: Result<Response, ContractError>)
    requires
        old(state).wf(),
        unbond_fits(*old(state), amount, *env),
    ensures
        final(state).wf(),
        r is Err ==> *final(state) == *old(state),
        info.sender@ != old(state).agent@ ==> r == Err::<Response, ContractError>(
            ContractError::Unauthorized {},
        ),
        ({
            let key = spec_dec_str(nft_id as nat);
            let pre = *old(state);
            let auth = info.sender@ == pre.agent@;
            let has = spec_has_position(pre.nft_bonded@, key);
            let amt_ok = spec_position_amount(pre.nft_bonded@, key) == amount;
            let plan_r = unbond_plan_of(pre, amount, chain.bonded_denom@);
            &&& (auth && !(has) ==> (r matches Err(e) && e matches ContractError::NFTNotRegistered {
                nft_id: id,
            } && id@ == key))
            &&& (auth && has && !(amt_ok) ==> (r matches Err(e)
                && e matches ContractError::RequestUnbondAmountMismatch {
                    nft_id: id,
                    requested,
                    balance,
                } && id@ == key && requested@ == spec_dec_str(amount as nat) && balance@
                == spec_dec_str(spec_position_amount(pre.nft_bonded@, key) as nat)))
            &&& (auth && has && amt_ok && plan_r is Err ==> r == Err::<Response, ContractError>(
                plan_r->Err_0,
            ))
            &&& (auth && has && amt_ok && plan_r is Ok && spec_first_conflict(
                plan_r->Ok_0,
                pre.unbonding_entries@,
                key,
            ) is Some ==> (r matches Err(e) && e matches ContractError::NFTAlreadyUnbonding {
                nft_id: id,
                val_addr,
            } && id@ == key && val_addr@ == spec_first_conflict(
                plan_r->Ok_0,
                pre.unbonding_entries@,
                key,
            )->0))
            &&& (auth && has && amt_ok && plan_r is Ok && spec_first_conflict(
                plan_r->Ok_0,
                pre.unbonding_entries@,
                key,
            ) is None ==> (r matches Ok(resp) && {
                let plan = plan_r->Ok_0;
                &&& unbond_post(pre, *final(state), key, amount, plan, env.block)
                &&& resp.messages@.len() == plan.len()
                &&& forall|t: int|
                    #![trigger resp.messages@[t]]
                    0 <= t < plan.len() ==> (resp.messages@[t] matches OutMsg::Undelegate {
                        validator,
                        amount: c,
                    } && validator@ == plan[t].0 && c.amount == plan[t].1 && c.denom@
                        == chain.bonded_denom@)
                &&& resp.attributes@.len() == 3
                &&& resp.attributes@[0].key@ == "action"@ && resp.attributes@[0].value@
                    == "unbond"@
                &&& resp.attributes@[1].key@ == "from"@ && resp.attributes@[1].value@ == key
                &&& resp.attributes@[2].key@ == "unbonded"@ && resp.attributes@[2].value@
                    == spec_dec_str(amount as nat)
            }))
        }),
{
    if info.sender != state.agent {
        return Err(ContractError::Unauthorized {});
    }
    let key = dec_str(nft_id);
    let pos_idx = match state.find_position(&key) {
        Some(j) => j,
        None => {
            return Err(ContractError::NFTNotRegistered { nft_id: key });
        },
    };
    proof {
        lemma_position_amount_unique(state.nft_bonded@, pos_idx as int);
    }
    let nft_amount_bonded = state.nft_bonded[pos_idx].amount;
    if nft_amount_bonded != amount {
        return Err(
            ContractError::RequestUnbondAmountMismatch {
                nft_id: key,
                requested: dec_str(amount),
                balance: dec_str(nft_amount_bonded),
            },
        );
    }

    let total_number_validators = state.number_validators;
    let number_validators = match calc_validator_number(total_number_validators, amount) {
        Ok(k) => k,
        Err(e) => {
            return Err(e);
        },
    };
    let vec_address_coin = match chosen_validators_unstake(
        &*state,
        amount,
        chain.bonded_denom.clone(),
        number_validators,
    ) {
        Ok(v) => v,
        Err(e) => {
            return Err(e);
        },
    };

    let ghost pre = *old(state);
    let ghost plan = plan_view(vec_address_coin@);
    let ghost b = env.block;
    proof {
        lemma_unstake_plan_props(pre.validators@, amount, chain.bonded_denom@, number_validators);
        assert(unbond_plan_of(pre, amount, chain.bonded_denom@) == Ok::<
            Seq<(Seq<char>, int)>,
            ContractError,
        >(plan));
    }

    // Reject the whole request if any planned validator already holds a live
    // unbonding entry for this position (the double-unbond guard); nothing
    // has been mutated yet.
    let m = vec_address_coin.len();
    let mut t: usize = 0;
    proof {
        assert(plan.skip(0) =~= plan);
    }
    while t < m
        invariant
            t <= m,
            m == vec_address_coin@.len(),
            plan == plan_view(vec_address_coin@),
            *state == pre,
            pre == *old(state),
            pre.wf(),
            info.sender@ == pre.agent@,
            spec_has_position(pre.nft_bonded@, key@),
            spec_position_amount(pre.nft_bonded@, key@) == amount,
            unbond_plan_of(pre, amount, chain.bonded_denom@) == Ok::<
                Seq<(Seq<char>, int)>,
                ContractError,
            >(plan),
            spec_first_conflict(plan.skip(t as int), pre.unbonding_entries@, key@)
                == spec_first_conflict(plan, pre.unbonding_entries@, key@),
            key@ == spec_dec_str(nft_id as nat),
        decreases m - t,
    {
        proof {
            assert(plan.skip(t as int)[0] == plan[t as int]);
            assert(plan.skip(t as int).drop_first() =~= plan.skip(t + 1));
        }
        if state.find_entry(&key, &vec_address_coin[t].0).is_some() {
            return Err(
                ContractError::NFTAlreadyUnbonding {
                    nft_id: key,
                    val_addr: vec_address_coin[t].0.clone(),
                },
            );
        }
        t = t + 1;
    }
    proof {
        assert(plan.skip(m as int).len() == 0);
        assert(spec_first_conflict(plan, pre.unbonding_entries@, key@) is None);
        crate::split::lemma_first_conflict_none(plan, pre.unbonding_entries@, key@);
    }

    // Commit: move each share from bonded to unbonding on its validator and
    // append the claim entry.
    let ghost pre_entries = pre.unbonding_entries@;
    let mut t: usize = 0;
    proof {
        assert(plan.take(0) =~= Seq::<(Seq<char>, int)>::empty());
        assert(state.unbonding_entries@.take(pre_entries.len() as int) =~= pre_entries);
        assert forall|i: int| 0 <= i < pre.validators@.len() implies state.validators@[i]
            == (ValidatorRecord {
            address: pre.validators@[i].address,
            info: ValidatorInfo {
                bond_denom: pre.validators@[i].info.bond_denom,
                unbonding_period: pre.validators@[i].info.unbonding_period,
                bonded: (pre.validators@[i].info.bonded - plan_share_for(
                    plan.take(0),
                    pre.validators@[i].address@,
                )) as u128,
                unbonding: (pre.validators@[i].info.unbonding + plan_share_for(
                    plan.take(0),
                    pre.validators@[i].address@,
                )) as u128,
            },
        }) by {
            assert(plan_share_for(plan.take(0), pre.validators@[i].address@) == 0);
            assert(state.validators@[i] == pre.validators@[i]);
        }
    }
    while t < m
        invariant
            t <= m,
            m == vec_address_coin@.len(),
            plan == plan_view(vec_address_coin@),
            pre == *old(state),
            pre.wf(),
            key@ == spec_dec_str(nft_id as nat),
            pre_entries == pre.unbonding_entries@,
            b == env.block,
            unbond_fits(pre, amount, *env),
            plan_sum(plan) == amount,
            amount > 0,
            forall|q: int| 0 <= q < plan.len() ==> plan_entry_ok(pre.validators@, plan[q]),
            forall|q: int, w: int| 0 <= q < w < plan.len() ==> plan[q].0 != plan[w].0,
            forall|q: int|
                0 <= q < plan.len() ==> !spec_has_entry(pre_entries, key@, plan[q].0),
            forall|q: int|
                0 <= q < m ==> vec_address_coin@[q].1.denom@ == chain.bonded_denom@,
            // validators: the prefix of the plan is applied
            state.validators@.len() == pre.validators@.len(),
            forall|i: int|
                0 <= i < pre.validators@.len() ==> state.validators@[i] == (ValidatorRecord {
                    address: pre.validators@[i].address,
                    info: ValidatorInfo {
                        bond_denom: pre.validators@[i].info.bond_denom,
                        unbonding_period: pre.validators@[i].info.unbonding_period,
                        bonded: (pre.validators@[i].info.bonded - plan_share_for(
                            plan.take(t as int),
                            pre.validators@[i].address@,
                        )) as u128,
                        unbonding: (pre.validators@[i].info.unbonding + plan_share_for(
                            plan.take(t as int),
                            pre.validators@[i].address@,
                        )) as u128,
                    },
                }),
            // entries: one appended per applied share
            state.unbonding_entries@.len() == pre_entries.len() + t,
            state.unbonding_entries@.take(pre_entries.len() as int) == pre_entries,
            forall|q: int|
                #![trigger plan[q]]
                0 <= q < t ==> {
                    let e = state.unbonding_entries@[pre_entries.len() + q];
                    &&& e.nft_id@ == key@
                    &&& e.validator@ == plan[q].0
                    &&& e.amount == plan[q].1
                    &&& e.release_at == spec_after(
                        spec_validator_for(pre.validators@, plan[q].0).info.unbonding_period,
                        b,
                    )
                },
            // conservation bookkeeping
            sum_vr_bonded(state.validators@) == pre.bonded - plan_sum(plan.take(t as int)),
            sum_vr_unbonding(state.validators@) == pre.unbonding + plan_sum(plan.take(t as int)),
            sum_ue_amount(state.unbonding_entries@) == pre.unbonding + plan_sum(
                plan.take(t as int),
            ),
            forall|i: int|
                0 <= i < state.validators@.len() ==> state.validators@[i].info.unbonding
                    == sum_ue_for_validator(
                    state.unbonding_entries@,
                    state.validators@[i].address@,
                ),
            // untouched parts
            state.nft_bonded@ == pre.nft_bonded@,
            state.bonded == pre.bonded,
            state.unbonding == pre.unbonding,
            state.total_bonded == pre.total_bonded,
            state.total_claimed == pre.total_claimed,
            state.number_validators == pre.number_validators,
            state.agent == pre.agent,
            state.manager == pre.manager,
            state.treasury == pre.treasury,
        decreases m - t,
    {
        let ghost entries0 = state.unbonding_entries@;
        let ghost vals0 = state.validators@;
        let val_address = &vec_address_coin[t].0;
        let share = vec_address_coin[t].1.amount;
        proof {
            assert(plan[t as int] == (val_address@, share as int));
            assert(plan_entry_ok(pre.validators@, plan[t as int]));
        }
        let vi = match state.find_validator(val_address) {
            Some(i) => i,
            None => {
                proof {
                    let w = choose|w: int|
                        0 <= w < pre.validators@.len() && pre.validators@[w].address@
                            == val_address@ && 0 < share <= pre.validators@[w].info.bonded;
                    assert(state.validators@[w].address@ == val_address@);
                    assert(false);
                }
                return Err(ContractError::NotRegisteredValidator { address: val_address.clone() });
            },
        };
        proof {
            // this is the plan's only share for this validator, so its
            // running totals still match the pre state
            let w = choose|w: int|
                0 <= w < pre.validators@.len() && pre.validators@[w].address@ == val_address@
                    && 0 < share <= pre.validators@[w].info.bonded;
            assert(pre.validators@[vi as int].address@ == val_address@);
            if w != vi as int {
                assert(pre.validators@[w].address@ != pre.validators@[vi as int].address@);
            }
            assert(share <= pre.validators@[vi as int].info.bonded);
            assert forall|q: int| 0 <= q < t implies plan[q].0 != val_address@ by {
                assert(plan[q].0 != plan[t as int].0);
            }
            assert forall|q: int|
                0 <= q < plan.take(t as int).len() implies plan.take(t as int)[q].0
                != val_address@ by {
                assert(plan.take(t as int)[q] == plan[q]);
            }
            lemma_plan_share_absent(plan.take(t as int), val_address@);
            lemma_sum_vr_unbonding_bound(pre.validators@, vi as int);
            lemma_plan_item_le_sum(plan, t as int);
        }
        let old_rec = &state.validators[vi];
        let period = old_rec.info.unbonding_period;
        let new_rec = ValidatorRecord {
            address: old_rec.address.clone(),
            info: ValidatorInfo {
                bond_denom: old_rec.info.bond_denom.clone(),
                unbonding_period: period,
                bonded: old_rec.info.bonded - share,
                unbonding: old_rec.info.unbonding + share,
            },
        };
        proof {
            lemma_sum_vr_bonded_update(state.validators@, vi as int, new_rec);
            lemma_sum_vr_unbonding_update(state.validators@, vi as int, new_rec);
        }
        state.validators[vi] = new_rec;
        let release_at = period.after(&env.block);
        let entry = UnbondingEntry {
            nft_id: key.clone(),
            validator: val_address.clone(),
            amount: share,
            release_at,
        };
        proof {
            lemma_sum_ue_amount_push(state.unbonding_entries@, entry);
        }
        state.unbonding_entries.push(entry);
        proof {
            assert(plan.take(t + 1).drop_last() =~= plan.take(t as int));
            assert(plan.take(t + 1).last() == plan[t as int]);
            assert(state.unbonding_entries@.take(pre_entries.len() as int) =~= entries0.take(
                pre_entries.len() as int,
            ));
            // the appended entry belongs to this validator alone
            assert forall|i: int| 0 <= i < state.validators@.len() implies
                state.validators@[i].info.unbonding == sum_ue_for_validator(
                state.unbonding_entries@,
                state.validators@[i].address@,
            ) by {
                lemma_sum_ue_for_validator_push(entries0, entry, state.validators@[i].address@);
                if i != vi as int {
                    assert(pre.validators@[i].address@ != pre.validators@[vi as int].address@);
                    assert(plan_share_for(plan.take(t + 1), state.validators@[i].address@)
                        == plan_share_for(plan.take(t as int), state.validators@[i].address@));
                } else {
                    assert(plan_share_for(plan.take(t + 1), val_address@) == plan_share_for(
                        plan.take(t as int),
                        val_address@,
                    ) + share);
                }
            }
            // the validator's release period is the pre state's
            assert(spec_validator_for(pre.validators@, val_address@) == pre.validators@[vi as int])
                by {
                let u = choose|u: int|
                    0 <= u < pre.validators@.len() && pre.validators@[u].address@ == val_address@;
                if u != vi as int {
                    assert(pre.validators@[u].address@ != pre.validators@[vi as int].address@);
                }
            }
        }
        t = t + 1;
    }
    proof {
        assert(plan.take(m as int) =~= plan);
    }

    // Delete the position and move the pool totals.
    proof {
        lemma_sum_pb_amount_bound(state.nft_bonded@, pos_idx as int);
        lemma_sum_pb_amount_remove(state.nft_bonded@, pos_idx as int);
    }
    state.nft_bonded.remove(pos_idx);
    state.bonded = state.bonded - amount;
    state.unbonding = state.unbonding + amount;

    proof {
        // well-formedness of the committed state
        assert forall|i: int, j: int|
            0 <= i < j < state.validators@.len() implies state.validators@[i].address@
            != state.validators@[j].address@ by {
            assert(pre.validators@[i].address@ != pre.validators@[j].address@);
        }
        assert forall|i: int| 0 <= i < state.unbonding_entries@.len() implies spec_has_validator(
            state.validators@,
            state.unbonding_entries@[i].validator@,
        ) by {
            if i < pre_entries.len() {
                assert(state.unbonding_entries@[i] == pre_entries[i]);
                let w = choose|w: int|
                    0 <= w < pre.validators@.len() && pre.validators@[w].address@
                        == pre_entries[i].validator@;
                assert(state.validators@[w].address@ == pre_entries[i].validator@);
            } else {
                let q = i - pre_entries.len();
                let w = choose|w: int|
                    0 <= w < pre.validators@.len() && pre.validators@[w].address@ == plan[q].0
                        && 0 < plan[q].1 <= pre.validators@[w].info.bonded;
                assert(state.validators@[w].address@ == plan[q].0);
            }
        }
        assert forall|i: int| 0 <= i < state.unbonding_entries@.len() implies
            state.unbonding_entries@[i].amount > 0 by {
            if i < pre_entries.len() {
                assert(state.unbonding_entries@[i] == pre_entries[i]);
            } else {
                let q = i - pre_entries.len();
                assert(plan_entry_ok(pre.validators@, plan[q]));
                assert(state.unbonding_entries@[i].amount == plan[q].1);
            }
        }
        assert forall|i: int, j: int|
            0 <= i < j < state.unbonding_entries@.len() implies !(state.unbonding_entries@[i].nft_id@
            == state.unbonding_entries@[j].nft_id@ && state.unbonding_entries@[i].validator@
            == state.unbonding_entries@[j].validator@) by {
            if i < pre_entries.len() && j < pre_entries.len() {
                assert(state.unbonding_entries@[i] == pre_entries[i]);
                assert(state.unbonding_entries@[j] == pre_entries[j]);
            } else if i < pre_entries.len() {
                // an old entry and a new one: the new pair was checked live
                assert(state.unbonding_entries@[i] == pre_entries[i]);
                let q = j - pre_entries.len();
                if state.unbonding_entries@[i].nft_id@ == key@
                    && state.unbonding_entries@[i].validator@ == plan[q].0 {
                    assert(spec_has_entry(pre_entries, key@, plan[q].0));
                }
            } else {
                // two new entries: distinct plan validators
                let q = i - pre_entries.len();
                let w = j - pre_entries.len();
                assert(plan[q].0 != plan[w].0);
            }
        }
        assert forall|i: int, j: int|
            0 <= i < j < state.nft_bonded@.len() implies state.nft_bonded@[i].nft_id@
            != state.nft_bonded@[j].nft_id@ by {
            if j < pos_idx as int {
                assert(state.nft_bonded@[i] == pre.nft_bonded@[i]);
                assert(state.nft_bonded@[j] == pre.nft_bonded@[j]);
            } else if i < pos_idx as int {
                assert(state.nft_bonded@[i] == pre.nft_bonded@[i]);
                assert(state.nft_bonded@[j] == pre.nft_bonded@[j + 1]);
            } else {
                assert(state.nft_bonded@[i] == pre.nft_bonded@[i + 1]);
                assert(state.nft_bonded@[j] == pre.nft_bonded@[j + 1]);
            }
        }
        assert(state.wf());
        assert(unbond_post(pre, *state, key@, amount, plan, env.block));
    }

    // The undelegate instructions, one per share, in plan order.
    let mut messages: Vec<OutMsg> = Vec::new();
    let mut t: usize = 0;
    while t < m
        invariant
            t <= m,
            m == vec_address_coin@.len(),
            messages@.len() == t,
            forall|q: int|
                #![trigger messages@[q]]
                0 <= q < t ==> (messages@[q] matches OutMsg::Undelegate { validator, amount: c }
                    && validator@ == vec_address_coin@[q].0@ && c == vec_address_coin@[q].1),
        decreases m - t,
    {
        messages.push(
            OutMsg::Undelegate {
                validator: vec_address_coin[t].0.clone(),
                amount: vec_address_coin[t].1.clone(),
            },
        );
        t = t + 1;
    }

    let mut attributes: Vec<Attribute> = Vec::new();
    attributes.push(attr("action", "unbond".to_owned()));
    attributes.push(attr("from", key));
    attributes.push(attr("unbonded", dec_str(amount)));
    Ok(Response { messages, attributes })
}

/// The machine-range condition a claim needs: the lifetime claimed counter
/// must not overflow.
pub open spec fn claim_fits(pre: State, amount: u128) -> bool {
    pre.total_claimed + amount <= u128::MAX
}

/// What a successful claim of position `nft` at block `b` does to the
/// ledger: every matured entry of the position is settled — its amount leaves
/// its validator's `unbonding` total and the entry disappears — and the pool
/// counters move by the settled sum.
pub open spec fn claim_post(
    pre: State,
    post: State,
    nft: Seq<char>,
    b: BlockInfo,
    to_send: int,
) -> bool {
    &&& post.validators@.len() == pre.validators@.len()
    &&& forall|i: int|
        0 <= i < pre.validators@.len() ==> post.validators@[i] == (ValidatorRecord {
            address: pre.validators@[i].address,
            info: ValidatorInfo {
                bond_denom: pre.validators@[i].info.bond_denom,
                unbonding_period: pre.validators@[i].info.unbonding_period,
                bonded: pre.validators@[i].info.bonded,
                unbonding: (pre.validators@[i].info.unbonding - sum_ue_matured_for_validator(
                    pre.unbonding_entries@,
                    nft,
                    b,
                    pre.validators@[i].address@,
                )) as u128,
            },
        })
    &&& post.unbonding_entries@ == spec_remove_matured(pre.unbonding_entries@, nft, b)
    &&& post.nft_bonded@ == pre.nft_bonded@
    &&& post.bonded == pre.bonded
    &&& post.unbonding == pre.unbonding - to_send
    &&& post.total_bonded == pre.total_bonded
    &&& post.total_claimed == pre.total_claimed + to_send
    &&& post.number_validators == pre.number_validators
    &&& post.agent == pre.agent
    &&& post.manager == pre.manager
    &&& post.treasury == pre.treasury
}

/// Pays out a position's matured claims.  The settled sum must be positive
/// (else nothing has matured yet), must equal the requested amount exactly,
/// and the pool's balance must already cover it — the chain transfers
/// unbonded funds only after the unbonding period, so a short balance is the
/// one retryable failure.  Only the agent may call.
#[verifier::rlimit(50)]
pub fn execute_claim(
    state: &mut State,
    env: &Env,
    info: &MessageInfo,
    chain: &ChainInfo,
    nft_id: u128,
    sender: String,
    amount: u128,
) -> (r: Result<Response, ContractError>)
    requires
        old(state).wf(),
        claim_fits(*old(state), amount),
    ensures
        final(state).wf(),
        r is Err ==> *final(state) == *old(state),
        info.sender@ != old(state).agent@ ==> r == Err::<Response, ContractError>(
            ContractError::Unauthorized {},
        ),
        ({
            let key = spec_dec_str(nft_id as nat);
            let pre = *old(state);
            let auth = info.sender@ == pre.agent@;
            let to_send = sum_ue_matured(pre.unbonding_entries@, key, env.block);
            &&& (auth && to_send == 0 ==> r == Err::<Response, ContractError>(
                ContractError::NothingToClaim {},
            ))
            &&& (auth && to_send != 0 && to_send != amount ==> (r matches Err(e)
                && e matches ContractError::RequestUnbondAmountMismatch {
                    nft_id: id,
                    requested,
                    balance,
                } && id@ == key && requested@ == spec_dec_str(amount as nat) && balance@
                == spec_dec_str(to_send as nat)))
            &&& (auth && to_send != 0 && to_send == amount && chain.balance < to_send ==> r
                == Err::<Response, ContractError>(ContractError::BalanceTooSmall {}))
            &&& (auth && to_send != 0 && to_send == amount && chain.balance >= to_send ==> (r
                matches Ok(resp) && {
                &&& claim_post(pre, *final(state), key, env.block, to_send)
                &&& resp.messages@.len() == 1
                &&& resp.messages@[0] matches OutMsg::Send { to_address, amount: coins } && {
                    &&& to_address == sender
                    &&& coins@.len() == 1
                    &&& coins@[0].denom@ == chain.bonded_denom@
                    &&& coins@[0].amount == to_send
                }
                &&& resp.attributes@.len() == 4
                &&& resp.attributes@[0].key@ == "action"@ && resp.attributes@[0].value@
                    == "claim"@
                &&& resp.attributes@[1].key@ == "from"@ && resp.attributes@[1].value == sender
                &&& resp.attributes@[2].key@ == "nft_id"@ && resp.attributes@[2].value@ == key
                &&& resp.attributes@[3].key@ == "amount"@ && resp.attributes@[3].value@
                    == spec_dec_str(to_send as nat)
            }))
        }),
{
    if info.sender != state.agent {
        return Err(ContractError::Unauthorized {});
    }
    let key = dec_str(nft_id);
    let ghost pre = *old(state);
    let ghost entries_pre = pre.unbonding_entries@;
    let ghost b = env.block;

    // Settle: sum the matured claims of this position.
    let n = state.unbonding_entries.len();
    let mut to_send: u128 = 0;
    let mut i: usize = 0;
    proof {
        assert(entries_pre.take(0) =~= Seq::<UnbondingEntry>::empty());
        lemma_sum_ue_matured_bounds(entries_pre, key@, b);
    }
    while i < n
        invariant
            i <= n,
            n == entries_pre.len(),
            *state == pre,
            state.unbonding_entries@ == entries_pre,
            pre == *old(state),
            pre.wf(),
            b == env.block,
            to_send == sum_ue_matured(entries_pre.take(i as int), key@, b),
            sum_ue_matured(entries_pre, key@, b) <= sum_ue_amount(entries_pre),
            sum_ue_amount(entries_pre) == pre.unbonding,
        decreases n - i,
    {
        proof {
            lemma_sum_ue_matured_prefix(entries_pre, i + 1, key@, b);
            assert(entries_pre.take(i + 1).drop_last() =~= entries_pre.take(i as int));
            assert(entries_pre.take(i + 1).last() == entries_pre[i as int]);
        }
        let e = &state.unbonding_entries[i];
        if e.nft_id == key && e.release_at.is_expired(&env.block) {
            to_send = to_send + e.amount;
        }
        i = i + 1;
    }
    proof {
        assert(entries_pre.take(n as int) =~= entries_pre);
    }

    if to_send == 0 {
        return Err(ContractError::NothingToClaim {});
    }
    if to_send != amount {
        return Err(
            ContractError::RequestUnbondAmountMismatch {
                nft_id: key,
                requested: dec_str(amount),
                balance: dec_str(to_send),
            },
        );
    }
    if chain.balance < to_send {
        return Err(ContractError::BalanceTooSmall {});
    }

    // Commit: drop every matured entry of the position and give its amount
    // back from its validator's unbonding total.
    let mut kept: Vec<UnbondingEntry> = Vec::new();
    let mut i: usize = 0;
    proof {
        assert(entries_pre.take(0) =~= Seq::<UnbondingEntry>::empty());
        assert(kept@ =~= spec_remove_matured(entries_pre.take(0), key@, b));
        assert forall|q: int| 0 <= q < pre.validators@.len() implies state.validators@[q]
            == (ValidatorRecord {
            address: pre.validators@[q].address,
            info: ValidatorInfo {
                bond_denom: pre.validators@[q].info.bond_denom,
                unbonding_period: pre.validators@[q].info.unbonding_period,
                bonded: pre.validators@[q].info.bonded,
                unbonding: (pre.validators@[q].info.unbonding - sum_ue_matured_for_validator(
                    entries_pre.take(0),
                    key@,
                    b,
                    pre.validators@[q].address@,
                )) as u128,
            },
        }) by {
            assert(sum_ue_matured_for_validator(
                entries_pre.take(0),
                key@,
                b,
                pre.validators@[q].address@,
            ) == 0);
            assert(state.validators@[q] == pre.validators@[q]);
        }
    }
    while i < n
        invariant
            i <= n,
            n == entries_pre.len(),
            pre == *old(state),
            pre.wf(),
            b == env.block,
            key@ == spec_dec_str(nft_id as nat),
            entries_pre == pre.unbonding_entries@,
            state.unbonding_entries@ == entries_pre,
            kept@ == spec_remove_matured(entries_pre.take(i as int), key@, b),
            state.validators@.len() == pre.validators@.len(),
            sum_vr_unbonding(state.validators@) == sum_vr_unbonding(pre.validators@)
                - sum_ue_matured(entries_pre.take(i as int), key@, b),
            sum_vr_bonded(state.validators@) == sum_vr_bonded(pre.validators@),
            forall|q: int|
                0 <= q < pre.validators@.len() ==> state.validators@[q] == (ValidatorRecord {
                    address: pre.validators@[q].address,
                    info: ValidatorInfo {
                        bond_denom: pre.validators@[q].info.bond_denom,
                        unbonding_period: pre.validators@[q].info.unbonding_period,
                        bonded: pre.validators@[q].info.bonded,
                        unbonding: (pre.validators@[q].info.unbonding
                            - sum_ue_matured_for_validator(
                            entries_pre.take(i as int),
                            key@,
                            b,
                            pre.validators@[q].address@,
                        )) as u128,
                    },
                }),
            state.nft_bonded@ == pre.nft_bonded@,
            state.bonded == pre.bonded,
            state.unbonding == pre.unbonding,
            state.total_bonded == pre.total_bonded,
            state.total_claimed == pre.total_claimed,
            state.number_validators == pre.number_validators,
            state.agent == pre.agent,
            state.manager == pre.manager,
            state.treasury == pre.treasury,
        decreases n - i,
    {
        proof {
            assert(entries_pre.take(i + 1).drop_last() =~= entries_pre.take(i as int));
            assert(entries_pre.take(i + 1).last() == entries_pre[i as int]);
            lemma_sum_ue_matured_bounds(entries_pre.take(i + 1), key@, b);
            lemma_sum_ue_matured_bounds(entries_pre.take(i as int), key@, b);
            lemma_sum_ue_matured_bounds(entries_pre, key@, b);
            lemma_sum_ue_matured_prefix(entries_pre, i + 1, key@, b);
            lemma_sum_ue_matured_prefix(entries_pre, i as int, key@, b);
        }
        let e = state.unbonding_entries[i].clone();
        if e.nft_id == key && e.release_at.is_expired(&env.block) {
            let vi = match state.find_validator(&e.validator) {
                Some(v) => v,
                None => {
                    proof {
                        let w = choose|w: int|
                            0 <= w < pre.validators@.len() && pre.validators@[w].address@
                                == entries_pre[i as int].validator@;
                        assert(state.validators@[w].address@ == e.validator@);
                        assert(false);
                    }
                    return Err(ContractError::NotRegisteredValidator { address: e.validator });
                },
            };
            proof {
                // the settled amount fits in this validator's running total
                let addr = pre.validators@[vi as int].address@;
                assert(sum_ue_matured_for_validator(entries_pre.take(i + 1), key@, b, addr)
                    <= sum_ue_matured_for_validator(entries_pre, key@, b, addr));
                assert(sum_ue_matured_for_validator(entries_pre, key@, b, addr)
                    <= sum_ue_for_validator(entries_pre, addr)) by {
                    lemma_sum_ue_matured_bounds(entries_pre, key@, b);
                }
                assert(sum_ue_for_validator(entries_pre, addr)
                    == pre.validators@[vi as int].info.unbonding);
                assert(entries_pre[i as int].validator@ == addr);
                assert(sum_ue_matured_for_validator(entries_pre.take(i + 1), key@, b, addr)
                    == sum_ue_matured_for_validator(entries_pre.take(i as int), key@, b, addr)
                    + e.amount);
                assert(e.amount <= state.validators@[vi as int].info.unbonding);
            }
            let old_rec = &state.validators[vi];
            let new_rec = ValidatorRecord {
                address: old_rec.address.clone(),
                info: ValidatorInfo {
                    bond_denom: old_rec.info.bond_denom.clone(),
                    unbonding_period: old_rec.info.unbonding_period,
                    bonded: old_rec.info.bonded,
                    unbonding: old_rec.info.unbonding - e.amount,
                },
            };
            proof {
                lemma_sum_vr_unbonding_update(state.validators@, vi as int, new_rec);
                lemma_sum_vr_bonded_update(state.validators@, vi as int, new_rec);
            }
            state.validators[vi] = new_rec;
            proof {
                assert forall|q: int| 0 <= q < pre.validators@.len() implies state.validators@[q]
                    == (ValidatorRecord {
                    address: pre.validators@[q].address,
                    info: ValidatorInfo {
                        bond_denom: pre.validators@[q].info.bond_denom,
                        unbonding_period: pre.validators@[q].info.unbonding_period,
                        bonded: pre.validators@[q].info.bonded,
                        unbonding: (pre.validators@[q].info.unbonding
                            - sum_ue_matured_for_validator(
                            entries_pre.take(i + 1),
                            key@,
                            b,
                            pre.validators@[q].address@,
                        )) as u128,
                    },
                }) by {
                    if q != vi as int {
                        assert(pre.validators@[q].address@ != pre.validators@[vi as int].address@);
                        assert(sum_ue_matured_for_validator(
                            entries_pre.take(i + 1),
                            key@,
                            b,
                            pre.validators@[q].address@,
                        ) == sum_ue_matured_for_validator(
                            entries_pre.take(i as int),
                            key@,
                            b,
                            pre.validators@[q].address@,
                        ));
                    }
                }
            }
        } else {
            kept.push(e);
            proof {
                assert(kept@ =~= spec_remove_matured(entries_pre.take(i + 1), key@, b));
            }
        }
        i = i + 1;
    }
    proof {
        assert(entries_pre.take(n as int) =~= entries_pre);
        lemma_remove_matured_props(entries_pre, key@, b);
    }
    state.unbonding_entries = kept;
    state.unbonding = state.unbonding - to_send;
    state.total_claimed = state.total_claimed + to_send;

    proof {
        assert forall|p: int, q: int|
            0 <= p < q < state.validators@.len() implies state.validators@[p].address@
            != state.validators@[q].address@ by {
            assert(pre.validators@[p].address@ != pre.validators@[q].address@);
        }
        assert forall|q: int| 0 <= q < state.unbonding_entries@.len() implies spec_has_validator(
            state.validators@,
            state.unbonding_entries@[q].validator@,
        ) by {
            assert(entries_pre.contains(state.unbonding_entries@[q]));
            let w = choose|w: int|
                0 <= w < entries_pre.len() && entries_pre[w] == state.unbonding_entries@[q];
            let u = choose|u: int|
                0 <= u < pre.validators@.len() && pre.validators@[u].address@
                    == entries_pre[w].validator@;
            assert(state.validators@[u].address@ == state.unbonding_entries@[q].validator@);
        }
        assert forall|q: int| 0 <= q < state.unbonding_entries@.len() implies
            state.unbonding_entries@[q].amount > 0 by {
            assert(entries_pre.contains(state.unbonding_entries@[q]));
            let w = choose|w: int|
                0 <= w < entries_pre.len() && entries_pre[w] == state.unbonding_entries@[q];
        }
        assert forall|q: int| 0 <= q < state.validators@.len() implies
            state.validators@[q].info.unbonding == sum_ue_for_validator(
            state.unbonding_entries@,
            state.validators@[q].address@,
        ) by {
            assert(pre.validators@[q].info.unbonding == sum_ue_for_validator(
                entries_pre,
                pre.validators@[q].address@,
            ));
            assert(sum_ue_for_validator(state.unbonding_entries@, pre.validators@[q].address@)
                == sum_ue_for_validator(entries_pre, pre.validators@[q].address@)
                - sum_ue_matured_for_validator(entries_pre, key@, b, pre.validators@[q].address@));
        }
        assert(sum_vr_unbonding(state.validators@) == pre.unbonding - to_send);
        assert(state.wf());
        assert(claim_post(pre, *state, key@, env.block, to_send as int));
    }

    let mut coins: Vec<Coin> = Vec::new();
    coins.push(Coin { denom: chain.bonded_denom.clone(), amount: to_send });
    let mut messages: Vec<OutMsg> = Vec::new();
    messages.push(OutMsg::Send { to_address: sender.clone(), amount: coins });
    let mut attributes: Vec<Attribute> = Vec::new();
    attributes.push(attr("action", "claim".to_owned()));
    attributes.push(attr("from", sender));
    attributes.push(attr("nft_id", key));
    attributes.push(attr("amount", dec_str(to_send)));
    Ok(Response { messages, attributes })
}

/// The amount the chain reports as delegated to `addr` (the first matching
/// delegation; none counts as zero).
pub open spec fn spec_chain_delegation_amount(dels: Seq<Delegation>, addr: Seq<char>) -> int {
    match spec_delegation_for(dels, addr) {
        Option::Some(d) => d.amount.amount as int,
        Option::None => 0,
    }
}

/// The first delegation record for `addr`, if any.
fn find_delegation(dels: &Vec<Delegation>, addr: &String) -> (r: Option<Delegation>)
    ensures
        r == spec_delegation_for(dels@, addr@),
{
    let n = dels.len();
    let mut i: usize = 0;
    proof {
        assert(dels@.skip(0) =~= dels@);
    }
    while i < n
        invariant
            i <= n,
            n == dels@.len(),
            spec_delegation_for(dels@.skip(i as int), addr@) == spec_delegation_for(dels@, addr@),
        decreases n - i,
    {
        proof {
            assert(dels@.skip(i as int)[0] == dels@[i as int]);
            assert(dels@.skip(i as int).drop_first() =~= dels@.skip(i + 1));
        }
        if dels[i].validator == *addr {
            return Some(dels[i].clone());
        }
        i = i + 1;
    }
    proof {
        assert(dels@.skip(n as int).len() == 0);
    }
    None
}

/// The first delegation for `addr`, as a coin.
fn delegation_for(dels: &Vec<Delegation>, addr: &String) -> (r: Option<Coin>)
    ensures
        match spec_delegation_for(dels@, addr@) {
            Option::Some(d) => r == Some(d.amount),
            Option::None => r is None,
        },
{
    let n = dels.len();
    let mut i: usize = 0;
    proof {
        assert(dels@.skip(0) =~= dels@);
    }
    while i < n
        invariant
            i <= n,
            n == dels@.len(),
            spec_delegation_for(dels@.skip(i as int), addr@) == spec_delegation_for(dels@, addr@),
        decreases n - i,
    {
        proof {
            assert(dels@.skip(i as int)[0] == dels@[i as int]);
            assert(dels@.skip(i as int).drop_first() =~= dels@.skip(i + 1));
        }
        if dels[i].validator == *addr {
            return Some(dels[i].amount.clone());
        }
        i = i + 1;
    }
    None
}

/// What removing a zero-stake validator does: its record disappears and the
/// counter falls, nothing else moves.
pub open spec fn remove_validator_zero_post(pre: State, post: State, src_idx: int) -> bool {
    &&& post.validators@ == pre.validators@.remove(src_idx)
    &&& post.number_validators == pre.number_validators - 1
    &&& post.bonded == pre.bonded
    &&& post.unbonding == pre.unbonding
    &&& post.total_bonded == pre.total_bonded
    &&& post.total_claimed == pre.total_claimed
    &&& post.agent == pre.agent
    &&& post.manager == pre.manager
    &&& post.treasury == pre.treasury
    &&& post.nft_bonded@ == pre.nft_bonded@
    &&& post.unbonding_entries@ == pre.unbonding_entries@
}

/// What removing a staked validator does: its whole bonded amount moves to
/// the destination, its record disappears and the counter falls.
pub open spec fn remove_validator_redelegate_post(
    pre: State,
    post: State,
    src_idx: int,
    dst: Seq<char>,
) -> bool {
    exists|d: int|
        0 <= d < pre.validators@.len() && d != src_idx && pre.validators@[d].address@ == dst
            && post.validators@ == pre.validators@.update(
            d,
            ValidatorRecord {
                address: pre.validators@[d].address,
                info: ValidatorInfo {
                    bond_denom: pre.validators@[d].info.bond_denom,
                    unbonding_period: pre.validators@[d].info.unbonding_period,
                    bonded: (pre.validators@[d].info.bonded
                        + pre.validators@[src_idx].info.bonded) as u128,
                    unbonding: pre.validators@[d].info.unbonding,
                },
            },
        ).remove(src_idx) && post.number_validators == pre.number_validators - 1 && post.bonded
            == pre.bonded && post.unbonding == pre.unbonding && post.total_bonded
            == pre.total_bonded && post.total_claimed == pre.total_claimed && post.agent
            == pre.agent && post.manager == pre.manager && post.treasury == pre.treasury
            && post.nft_bonded@ == pre.nft_bonded@ && post.unbonding_entries@
            == pre.unbonding_entries@
}

/// Retires a validator.  Only the manager may call; the validator must be
/// registered, the ledger's bonded amount for it must equal what the chain
/// reports as delegated, and none of its stake may still be unbonding (the
/// pending claims reference it).  A staked validator needs another validator
/// to take its whole stake by redelegation — the one with the least bonded —
/// and the sole remaining validator cannot be removed while staked.
#[verifier::rlimit(100)]
#[verifier::spinoff_prover]
pub fn execute_remove_validator(
    state: &mut State,
    env: &Env,
    info: &MessageInfo,
    chain: &ChainInfo,
    src_validator_address: String,
) -> (r: Result<Response, ContractError>)
    requires
        old(state).wf(),
    ensures
        final(state).wf(),
        r is Err ==> *final(state) == *old(state),
        info.sender@ != old(state).manager@ ==> r == Err::<Response, ContractError>(
            ContractError::Unauthorized {},
        ),
        ({
            let pre = *old(state);
            let auth = info.sender@ == pre.manager@;
            let registered = spec_has_validator(pre.validators@, src_validator_address@);
            let src = spec_validator_for(pre.validators@, src_validator_address@);
            let reported = spec_chain_delegation_amount(
                chain.delegations@,
                src_validator_address@,
            );
            &&& (auth && !(registered) ==> (r matches Err(e)
                && e matches ContractError::NotRegisteredValidator { address } && address@
                == src_validator_address@))
            &&& (auth && registered && src.info.bonded != reported ==> r == Err::<
                Response,
                ContractError,
            >(
                ContractError::StateQueryDelegationMismatch {
                    state_amount: src.info.bonded,
                    delegation_amount: reported as u128,
                },
            ))
            &&& (auth && registered && src.info.bonded == reported && src.info.unbonding != 0
                ==> (r matches Err(e) && e matches ContractError::CustomError { .. }))
            &&& (auth && registered && src.info.bonded == reported && src.info.unbonding == 0
                && src.info.bonded != 0 && pre.validators@.len() == 1 ==> r == Err::<
                Response,
                ContractError,
            >(ContractError::OnlyOneValidator {}))
            &&& (auth && registered && src.info.bonded == reported && src.info.unbonding == 0
                && src.info.bonded == 0 ==> (r matches Ok(resp) && (exists|s: int|
                0 <= s < pre.validators@.len() && pre.validators@[s].address@
                    == src_validator_address@ && remove_validator_zero_post(
                    pre,
                    *final(state),
                    s,
                )) && resp.messages@.len() == 0 && resp.attributes@.len() == 2
                && resp.attributes@[0].key@ == "action"@ && resp.attributes@[0].value@
                == "remove_validator"@ && resp.attributes@[1].key@ == "address"@
                && resp.attributes@[1].value@ == src_validator_address@))
            &&& (auth && registered && src.info.bonded == reported && src.info.unbonding == 0
                && src.info.bonded != 0 && pre.validators@.len() > 1 ==> (r matches Ok(resp) && {
                &&& resp.messages@.len() == 1
                &&& resp.messages@[0] matches OutMsg::Redelegate {
                    src_validator,
                    dst_validator,
                    amount,
                } && {
                    &&& src_validator@ == src_validator_address@
                    &&& spec_is_chosen(
                        pre.validators@,
                        Option::Some(src_validator_address),
                        dst_validator@,
                    )
                    &&& amount.amount == src.info.bonded
                    &&& (exists|s: int|
                        0 <= s < pre.validators@.len() && pre.validators@[s].address@
                            == src_validator_address@ && remove_validator_redelegate_post(
                            pre,
                            *final(state),
                            s,
                            dst_validator@,
                        ))
                }
                &&& resp.attributes@.len() == 5
                &&& resp.attributes@[0].key@ == "action"@ && resp.attributes@[0].value@
                    == "remove_validator"@
                &&& resp.attributes@[1].key@ == "address"@ && resp.attributes@[1].value@
                    == src_validator_address@
            }))
        }),
{
    if info.sender != state.manager {
        return Err(ContractError::Unauthorized {});
    }
    let src_idx = match state.find_validator(&src_validator_address) {
        Some(i) => i,
        None => {
            return Err(ContractError::NotRegisteredValidator { address: src_validator_address });
        },
    };
    let ghost pre = *old(state);
    proof {
        let u = choose|u: int|
            0 <= u < pre.validators@.len() && pre.validators@[u].address@
                == src_validator_address@;
        if u != src_idx as int {
            assert(pre.validators@[u].address@ != pre.validators@[src_idx as int].address@);
        }
        assert(spec_validator_for(pre.validators@, src_validator_address@)
            == pre.validators@[src_idx as int]);
    }

    // The ledger and the chain must agree on this validator's stake.
    let state_amount = state.validators[src_idx].info.bonded;
    let option_full_delegation = delegation_for(&chain.delegations, &src_validator_address);
    let delegation_amount: u128 = match &option_full_delegation {
        Some(c) => c.amount,
        None => 0,
    };
    if state_amount != delegation_amount {
        return Err(
            ContractError::StateQueryDelegationMismatch { state_amount, delegation_amount },
        );
    }

    // Pending claims still reference this validator; removing it would break
    // the claims ledger, so it must finish unbonding first.
    if state.validators[src_idx].info.unbonding != 0 {
        return Err(
            ContractError::CustomError {
                val: "validator still has tokens unbonding".to_owned(),
            },
        );
    }

    let validator_count = state.validators.len();
    if state_amount != 0 && validator_count == 1 {
        return Err(ContractError::OnlyOneValidator {});
    }

    proof {
        lemma_sum_vr_bonded_remove(pre.validators@, src_idx as int);
        lemma_sum_vr_unbonding_remove(pre.validators@, src_idx as int);
        lemma_sum_ue_for_validator_nonneg(pre.unbonding_entries@, src_validator_address@);
    }
    if state_amount != 0 {
        // move the whole stake to the least-bonded other validator
        let dst_validator_address = match chosen_validator(
            &*state,
            Some(src_validator_address.clone()),
        ) {
            Ok(a) => a,
            Err(e) => {
                proof {
                    // another validator exists, so one is always chosen
                    let o: int = if src_idx == 0 {
                        1
                    } else {
                        0
                    };
                    assert(pre.validators@[o].address@ != pre.validators@[src_idx as int].address@);
                    assert(spec_eligible(
                        pre.validators@[o],
                        Some(src_validator_address),
                    ));
                    assert(false);
                }
                return Err(e);
            },
        };
        let dst_idx = match state.find_validator(&dst_validator_address) {
            Some(i) => i,
            None => {
                proof {
                    assert(spec_has_validator(pre.validators@, dst_validator_address@));
                    assert(false);
                }
                return Err(
                    ContractError::NotRegisteredValidator { address: dst_validator_address },
                );
            },
        };
        proof {
            assert(dst_idx != src_idx) by {
                assert(spec_is_chosen(
                    pre.validators@,
                    Some(src_validator_address),
                    dst_validator_address@,
                ));
            }
            lemma_sum_vr_bonded_pair_bound(pre.validators@, src_idx as int, dst_idx as int);
        }
        let old_rec = &state.validators[dst_idx];
        let new_rec = ValidatorRecord {
            address: old_rec.address.clone(),
            info: ValidatorInfo {
                bond_denom: old_rec.info.bond_denom.clone(),
                unbonding_period: old_rec.info.unbonding_period,
                bonded: old_rec.info.bonded + state_amount,
                unbonding: old_rec.info.unbonding,
            },
        };
        proof {
            lemma_sum_vr_bonded_update(state.validators@, dst_idx as int, new_rec);
            lemma_sum_vr_unbonding_update(state.validators@, dst_idx as int, new_rec);
            lemma_sum_vr_bonded_remove(
                state.validators@.update(dst_idx as int, new_rec),
                src_idx as int,
            );
            lemma_sum_vr_unbonding_remove(
                state.validators@.update(dst_idx as int, new_rec),
                src_idx as int,
            );
        }
        state.validators[dst_idx] = new_rec;
        state.validators.remove(src_idx);
        state.number_validators = state.number_validators - 1;

        let amount_coin = match option_full_delegation {
            Some(c) => c,
            None => {
                proof {
                    assert(false);
                }
                return Err(ContractError::OnlyOneValidator {});
            },
        };
        proof {
            remove_validator_reestablish_wf(pre, *state, src_idx as int, dst_idx as int);
            assert(remove_validator_redelegate_post(
                pre,
                *state,
                src_idx as int,
                dst_validator_address@,
            ));
        }
        let mut messages: Vec<OutMsg> = Vec::new();
        messages.push(
            OutMsg::Redelegate {
                src_validator: src_validator_address.clone(),
                dst_validator: dst_validator_address.clone(),
                amount: amount_coin.clone(),
            },
        );
        let mut attributes: Vec<Attribute> = Vec::new();
        attributes.push(attr("action", "remove_validator".to_owned()));
        attributes.push(attr("address", src_validator_address));
        attributes.push(attr("redelegated_validator", dst_validator_address));
        attributes.push(attr("redelegated_denom", amount_coin.denom));
        attributes.push(attr("redelegated_amount", dec_str(amount_coin.amount)));
        let resp = Response { messages, attributes };
        proof {
            assert(resp.messages@[0] matches OutMsg::Redelegate {
                src_validator,
                dst_validator,
                amount,
            } && src_validator@ == src_validator_address@ && spec_is_chosen(
                pre.validators@,
                Option::Some(src_validator_address),
                dst_validator@,
            ) && amount.amount == pre.validators@[src_idx as int].info.bonded && (exists|w: int|
                0 <= w < pre.validators@.len() && pre.validators@[w].address@
                    == src_validator_address@ && remove_validator_redelegate_post(
                    pre,
                    *state,
                    w,
                    dst_validator@,
                )));
        }
        Ok(resp)
    } else {
        state.validators.remove(src_idx);
        state.number_validators = state.number_validators - 1;
        proof {
            remove_validator_reestablish_wf_zero(pre, *state, src_idx as int);
            assert(remove_validator_zero_post(pre, *state, src_idx as int));
        }
        let mut attributes: Vec<Attribute> = Vec::new();
        attributes.push(attr("action", "remove_validator".to_owned()));
        attributes.push(attr("address", src_validator_address));
        Ok(Response { messages: Vec::new(), attributes })
    }
}

/// Re-establishes well-formedness after removing a zero-stake, zero-unbonding
/// validator.
proof fn remove_validator_reestablish_wf_zero(pre: State, post: State, src_idx: int)
    requires
        pre.wf(),
        0 <= src_idx < pre.validators@.len(),
        pre.validators@[src_idx].info.bonded == 0,
        pre.validators@[src_idx].info.unbonding == 0,
        post.validators@ == pre.validators@.remove(src_idx),
        post.number_validators == pre.number_validators - 1,
        post.bonded == pre.bonded,
        post.unbonding == pre.unbonding,
        post.nft_bonded@ == pre.nft_bonded@,
        post.unbonding_entries@ == pre.unbonding_entries@,
    ensures
        post.validators_unique(),
        post.entries_wf(),
        sum_vr_bonded(post.validators@) == pre.bonded,
        sum_vr_unbonding(post.validators@) == pre.unbonding,
        forall|i: int|
            0 <= i < post.validators@.len() ==> post.validators@[i].info.unbonding
                == sum_ue_for_validator(post.unbonding_entries@, post.validators@[i].address@),
{
    let vals = pre.validators@;
    let addr = vals[src_idx].address@;
    lemma_sum_vr_bonded_remove(vals, src_idx);
    lemma_sum_vr_unbonding_remove(vals, src_idx);
    assert forall|i: int, j: int|
        0 <= i < j < post.validators@.len() implies post.validators@[i].address@
        != post.validators@[j].address@ by {
        let i2: int = if i < src_idx {
            i
        } else {
            i + 1
        };
        let j2: int = if j < src_idx {
            j
        } else {
            j + 1
        };
        assert(post.validators@[i] == vals[i2]);
        assert(post.validators@[j] == vals[j2]);
    }
    // the removed validator had no live entries: its entry-sum is zero and
    // every entry amount is positive
    assert forall|q: int| 0 <= q < post.unbonding_entries@.len() implies
        post.unbonding_entries@[q].validator@ != addr by {
        if post.unbonding_entries@[q].validator@ == addr {
            lemma_sum_ue_for_validator_bound(pre.unbonding_entries@, q, addr);
        }
    }
    assert forall|q: int| 0 <= q < post.unbonding_entries@.len() implies spec_has_validator(
        post.validators@,
        post.unbonding_entries@[q].validator@,
    ) by {
        let u = choose|u: int|
            0 <= u < vals.len() && vals[u].address@ == pre.unbonding_entries@[q].validator@;
        let u2: int = if u < src_idx {
            u
        } else {
            u - 1
        };
        assert(post.validators@[u2] == vals[u]);
    }
    assert forall|i: int| 0 <= i < post.validators@.len() implies
        post.validators@[i].info.unbonding == sum_ue_for_validator(
        post.unbonding_entries@,
        post.validators@[i].address@,
    ) by {
        let i2: int = if i < src_idx {
            i
        } else {
            i + 1
        };
        assert(post.validators@[i] == vals[i2]);
    }
}

/// Re-establishes well-formedness after moving the removed validator's whole
/// stake to another validator.
proof fn remove_validator_reestablish_wf(pre: State, post: State, src_idx: int, dst_idx: int)
    requires
        pre.wf(),
        0 <= src_idx < pre.validators@.len(),
        0 <= dst_idx < pre.validators@.len(),
        src_idx != dst_idx,
        pre.validators@[src_idx].info.unbonding == 0,
        pre.validators@[dst_idx].info.bonded + pre.validators@[src_idx].info.bonded
            <= u128::MAX,
        post.validators@ == pre.validators@.update(
            dst_idx,
            ValidatorRecord {
                address: pre.validators@[dst_idx].address,
                info: ValidatorInfo {
                    bond_denom: pre.validators@[dst_idx].info.bond_denom,
                    unbonding_period: pre.validators@[dst_idx].info.unbonding_period,
                    bonded: (pre.validators@[dst_idx].info.bonded
                        + pre.validators@[src_idx].info.bonded) as u128,
                    unbonding: pre.validators@[dst_idx].info.unbonding,
                },
            },
        ).remove(src_idx),
        post.number_validators == pre.number_validators - 1,
        post.bonded == pre.bonded,
        post.unbonding == pre.unbonding,
        post.nft_bonded@ == pre.nft_bonded@,
        post.unbonding_entries@ == pre.unbonding_entries@,
    ensures
        post.validators_unique(),
        post.entries_wf(),
        sum_vr_bonded(post.validators@) == pre.bonded,
        sum_vr_unbonding(post.validators@) == pre.unbonding,
        forall|i: int|
            0 <= i < post.validators@.len() ==> post.validators@[i].info.unbonding
                == sum_ue_for_validator(post.unbonding_entries@, post.validators@[i].address@),
{
    let vals = pre.validators@;
    let addr = vals[src_idx].address@;
    let new_rec = ValidatorRecord {
        address: vals[dst_idx].address,
        info: ValidatorInfo {
            bond_denom: vals[dst_idx].info.bond_denom,
            unbonding_period: vals[dst_idx].info.unbonding_period,
            bonded: (vals[dst_idx].info.bonded + vals[src_idx].info.bonded) as u128,
            unbonding: vals[dst_idx].info.unbonding,
        },
    };
    let mid = vals.update(dst_idx, new_rec);
    lemma_sum_vr_bonded_update(vals, dst_idx, new_rec);
    lemma_sum_vr_unbonding_update(vals, dst_idx, new_rec);
    lemma_sum_vr_bonded_remove(mid, src_idx);
    lemma_sum_vr_unbonding_remove(mid, src_idx);
    assert forall|i: int, j: int|
        0 <= i < j < post.validators@.len() implies post.validators@[i].address@
        != post.validators@[j].address@ by {
        let i2: int = if i < src_idx {
            i
        } else {
            i + 1
        };
        let j2: int = if j < src_idx {
            j
        } else {
            j + 1
        };
        assert(post.validators@[i] == mid[i2]);
        assert(post.validators@[j] == mid[j2]);
        assert(mid[i2].address@ == vals[i2].address@);
        assert(mid[j2].address@ == vals[j2].address@);
    }
    assert forall|q: int| 0 <= q < post.unbonding_entries@.len() implies
        post.unbonding_entries@[q].validator@ != addr by {
        if post.unbonding_entries@[q].validator@ == addr {
            lemma_sum_ue_for_validator_bound(pre.unbonding_entries@, q, addr);
        }
    }
    assert forall|q: int| 0 <= q < post.unbonding_entries@.len() implies spec_has_validator(
        post.validators@,
        post.unbonding_entries@[q].validator@,
    ) by {
        let u = choose|u: int|
            0 <= u < vals.len() && vals[u].address@ == pre.unbonding_entries@[q].validator@;
        let u2: int = if u < src_idx {
            u
        } else {
            u - 1
        };
        assert(post.validators@[u2].address@ == vals[u].address@);
    }
    assert forall|i: int| 0 <= i < post.validators@.len() implies
        post.validators@[i].info.unbonding == sum_ue_for_validator(
        post.unbonding_entries@,
        post.validators@[i].address@,
    ) by {
        let i2: int = if i < src_idx {
            i
        } else {
            i + 1
        };
        assert(post.validators@[i] == mid[i2]);
        assert(mid[i2].address@ == vals[i2].address@);
        assert(mid[i2].info.unbonding == vals[i2].info.unbonding);
    }
}

/// Sum of the amounts of the chain's reported delegations.
pub open spec fn sum_delegations(s: Seq<Delegation>) -> int
    decreases s.len(),
{
    if s.len() == 0 {
        0
    } else {
        sum_delegations(s.drop_last()) + s.last().amount.amount
    }
}

/// The denomination of the first delegation that differs from the first
/// delegation's denomination, if any.
pub open spec fn spec_first_bad_denom(s: Seq<Delegation>, denom: Seq<char>) -> Option<Seq<char>>
    decreases s.len(),
{
    if s.len() == 0 {
        None
    } else if s[0].amount.denom@ != denom {
        Some(s[0].amount.denom@)
    } else {
        spec_first_bad_denom(s.drop_first(), denom)
    }
}

proof fn lemma_sum_delegations_take(s: Seq<Delegation>, i: int)
    requires
        0 <= i <= s.len(),
    ensures
        sum_delegations(s.take(i)) <= sum_delegations(s),
        sum_delegations(s.take(i)) >= 0,
    decreases s.len() - i,
{
    if i == s.len() {
        assert(s.take(i) =~= s);
        lemma_sum_delegations_nonneg(s);
    } else {
        lemma_sum_delegations_take(s, i + 1);
        assert(s.take(i + 1).drop_last() =~= s.take(i));
        assert(s.take(i + 1).last() == s[i]);
        lemma_sum_delegations_nonneg(s.take(i));
    }
}

proof fn lemma_sum_delegations_nonneg(s: Seq<Delegation>)
    ensures
        sum_delegations(s) >= 0,
    decreases s.len(),
{
    if s.len() > 0 {
        lemma_sum_delegations_nonneg(s.drop_last());
    }
}

/// Total of all delegations the chain reports for the pool, requiring a
/// single denomination across them (an empty report counts as zero).
pub fn get_all_bonded(delegations: &Vec<Delegation>) -> (r: Result<u128, ContractError>)
    requires
        sum_delegations(delegations@) <= u128::MAX,
    ensures
        delegations@.len() == 0 ==> r == Ok::<u128, ContractError>(0),
        delegations@.len() > 0 ==> match spec_first_bad_denom(
            delegations@,
            delegations@[0].amount.denom@,
        ) {
            Option::Some(bad) => r matches Err(e)
                && e matches ContractError::DifferentBondDenom { denom1, denom2 } && denom1@
                == delegations@[0].amount.denom@ && denom2@ == bad,
            Option::None => r == Ok::<u128, ContractError>(
                sum_delegations(delegations@) as u128,
            ),
        },
{
    let n = delegations.len();
    if n == 0 {
        return Ok(0);
    }
    let denom = &delegations[0].amount.denom;
    let mut acc: u128 = 0;
    let mut i: usize = 0;
    proof {
        assert(delegations@.skip(0) =~= delegations@);
        assert(delegations@.take(0) =~= Seq::<Delegation>::empty());
    }
    while i < n
        invariant
            i <= n,
            n == delegations@.len(),
            n > 0,
            denom@ == delegations@[0].amount.denom@,
            acc == sum_delegations(delegations@.take(i as int)),
            sum_delegations(delegations@) <= u128::MAX,
            forall|q: int| 0 <= q < i ==> delegations@[q].amount.denom@ == denom@,
            spec_first_bad_denom(delegations@.skip(i as int), denom@) == spec_first_bad_denom(
                delegations@,
                denom@,
            ),
        decreases n - i,
    {
        proof {
            assert(delegations@.skip(i as int)[0] == delegations@[i as int]);
            assert(delegations@.skip(i as int).drop_first() =~= delegations@.skip(i + 1));
            lemma_sum_delegations_take(delegations@, i + 1);
            assert(delegations@.take(i + 1).drop_last() =~= delegations@.take(i as int));
            assert(delegations@.take(i + 1).last() == delegations@[i as int]);
        }
        if delegations[i].amount.denom != *denom {
            return Err(
                ContractError::DifferentBondDenom {
                    denom1: denom.clone(),
                    denom2: delegations[i].amount.denom.clone(),
                },
            );
        }
        acc = acc + delegations[i].amount.amount;
        i = i + 1;
    }
    proof {
        assert(delegations@.take(n as int) =~= delegations@);
        assert(delegations@.skip(n as int).len() == 0);
    }
    Ok(acc)
}

/// Reconciles the ledger against the chain: the chain's total delegated
/// amount must equal the pool's live bonded total exactly; a difference is
/// flagged, never self-healed.  Only the manager may call; no state changes.
pub fn execute_bond_check(
    state: &State,
    env: &Env,
    info: &MessageInfo,
    chain: &ChainInfo,
) -> (r: Result<Response, ContractError>)
    requires
        state.wf(),
        sum_delegations(chain.delegations@) <= u128::MAX,
    ensures
        info.sender@ != state.manager@ ==> r == Err::<Response, ContractError>(
            ContractError::Unauthorized {},
        ),
        ({
            let auth = info.sender@ == state.manager@;
            let chain_total = sum_delegations(chain.delegations@);
            let denom_ok = chain.delegations@.len() == 0 || spec_first_bad_denom(
                chain.delegations@,
                chain.delegations@[0].amount.denom@,
            ) is None;
            &&& (auth && !(denom_ok) ==> (r matches Err(e)
                && e matches ContractError::DifferentBondDenom { .. }))
            &&& (auth && denom_ok && chain_total != state.bonded ==> r == Err::<
                Response,
                ContractError,
            >(
                ContractError::BondedDiffer {
                    total_bonded: chain_total as u128,
                    state_total_bonded: state.bonded,
                },
            ))
            &&& (auth && denom_ok && chain_total == state.bonded ==> (r matches Ok(resp)
                && resp.messages@.len() == 0 && resp.attributes@.len() == 2
                && resp.attributes@[0].key@ == "action"@ && resp.attributes@[0].value@
                == "bond_check"@ && resp.attributes@[1].key@ == "total_bonded"@
                && resp.attributes@[1].value@ == spec_dec_str(state.bonded as nat)))
        }),
{
    if info.sender != state.manager {
        return Err(ContractError::Unauthorized {});
    }
    let total_bonded = match get_all_bonded(&chain.delegations) {
        Ok(t) => t,
        Err(e) => {
            return Err(e);
        },
    };
    proof {
        lemma_sum_delegations_nonneg(chain.delegations@);
    }
    let state_total_bonded = state.bonded;
    if total_bonded != state_total_bonded {
        return Err(
            ContractError::BondedDiffer { total_bonded, state_total_bonded },
        );
    }
    let mut attributes: Vec<Attribute> = Vec::new();
    attributes.push(attr("action", "bond_check".to_owned()));
    attributes.push(attr("total_bonded", dec_str(state_total_bonded)));
    Ok(Response { messages: Vec::new(), attributes })
}

/// The addresses with stake, in descending `(bonded, address)` order: the
/// validators a reward sweep withdraws from.
pub open spec fn spec_reward_targets(s: Seq<ValidatorRecord>) -> Seq<Seq<char>>
    decreases s.len(),
{
    if s.len() == 0 {
        Seq::empty()
    } else if s[0].info.bonded > 0 {
        seq![s[0].address@] + spec_reward_targets(s.drop_first())
    } else {
        spec_reward_targets(s.drop_first())
    }
}

/// Sweeps pending rewards: one withdraw instruction per validator with
/// nonzero stake (in descending stake order), after directing future rewards
/// to the treasury.  Only the manager may call; no ledger-state mutation.
pub fn execute_collect_rewards(state: &State, info: &MessageInfo) -> (r: Result<
    Response,
    ContractError,
>)
    requires
        state.wf(),
    ensures
        info.sender@ != state.manager@ ==> r == Err::<Response, ContractError>(
            ContractError::Unauthorized {},
        ),
        info.sender@ == state.manager@ ==> (r matches Ok(resp) && {
            let targets = spec_reward_targets(spec_sort_desc(state.validators@));
            &&& resp.messages@.len() == 1 + targets.len()
            &&& resp.messages@[0] matches OutMsg::SetWithdrawAddress { address } && address
                == state.treasury
            &&& forall|t: int|
                #![trigger resp.messages@[1 + t]]
                0 <= t < targets.len() ==> (resp.messages@[1 + t]
                    matches OutMsg::WithdrawDelegatorReward { validator } && validator@
                    == targets[t])
            &&& resp.attributes@.len() == 1
            &&& resp.attributes@[0].key@ == "action"@ && resp.attributes@[0].value@
                == "withdraw_delegation_rewards"@
        }),
{
    if info.sender != state.manager {
        return Err(ContractError::Unauthorized {});
    }
    let sorted = sort_validators_desc(&state.validators);
    let ghost sseq = spec_sort_desc(state.validators@);
    let ghost targets = spec_reward_targets(sseq);
    let mut messages: Vec<OutMsg> = Vec::new();
    messages.push(OutMsg::SetWithdrawAddress { address: state.treasury.clone() });
    let n = sorted.len();
    let mut i: usize = 0;
    proof {
        assert(sseq.skip(0) =~= sseq);
    }
    while i < n
        invariant
            i <= n,
            n == sseq.len(),
            sorted@ == sseq,
            targets == spec_reward_targets(sseq),
            messages@.len() >= 1,
            messages@[0] matches OutMsg::SetWithdrawAddress { address } && address
                == state.treasury,
            messages@.len() == 1 + targets.len() - spec_reward_targets(
                sseq.skip(i as int),
            ).len(),
            spec_reward_targets(sseq.skip(i as int)).len() <= targets.len(),
            forall|t: int|
                #![trigger messages@[1 + t]]
                0 <= t < messages@.len() - 1 ==> (messages@[1 + t]
                    matches OutMsg::WithdrawDelegatorReward { validator } && validator@
                    == targets[t]),
            targets.skip(messages@.len() - 1) == spec_reward_targets(sseq.skip(i as int)),
        decreases n - i,
    {
        proof {
            assert(sseq.skip(i as int)[0] == sseq[i as int]);
            assert(sseq.skip(i as int).drop_first() =~= sseq.skip(i + 1));
        }
        let ghost count0: int = messages@.len() - 1;
        if sorted[i].info.bonded > 0 {
            messages.push(
                OutMsg::WithdrawDelegatorReward { validator: sorted[i].address.clone() },
            );
            proof {
                assert(spec_reward_targets(sseq.skip(i as int)) == seq![sseq[i as int].address@]
                    + spec_reward_targets(sseq.skip(i + 1)));
                assert(targets.skip(count0)[0] == targets[count0]);
                assert(targets.skip(count0).drop_first() =~= targets.skip(count0 + 1));
            }
        }
        i = i + 1;
    }
    proof {
        assert(spec_reward_targets(sseq.skip(n as int)).len() == 0);
        assert(sseq.skip(n as int).len() == 0);
    }
    let mut attributes: Vec<Attribute> = Vec::new();
    attributes.push(attr("action", "withdraw_delegation_rewards".to_owned()));
    Ok(Response { messages, attributes })
}

/// Sends the pool account's whole balance of the bondable denomination to
/// the treasury.  Only the manager may call; fails when there is nothing to
/// send.  No ledger-state mutation.
pub fn _execute_transfer_balance(
    state: &State,
    env: &Env,
    info: &MessageInfo,
    chain: &ChainInfo,
) -> (r: Result<Response, ContractError>)
    requires
        state.wf(),
    ensures
        info.sender@ != state.manager@ ==> r == Err::<Response, ContractError>(
            ContractError::Unauthorized {},
        ),
        info.sender@ == state.manager@ && chain.balance == 0 ==> (r matches Err(e)
            && e matches ContractError::CustomError { .. }),
        info.sender@ == state.manager@ && chain.balance > 0 ==> (r matches Ok(resp) && {
            &&& resp.messages@.len() == 1
            &&& resp.messages@[0] matches OutMsg::Send { to_address, amount } && to_address
                == state.treasury && amount@.len() == 1 && amount@[0].denom@
                == chain.bonded_denom@ && amount@[0].amount == chain.balance
            &&& resp.attributes@.len() == 4
            &&& resp.attributes@[0].key@ == "action"@ && resp.attributes@[0].value@
                == "transfer_balance"@
            &&& resp.attributes@[1].key@ == "dst_addr"@ && resp.attributes@[1].value
                == state.treasury
            &&& resp.attributes@[2].key@ == "denom"@ && resp.attributes@[2].value@
                == chain.bonded_denom@
            &&& resp.attributes@[3].key@ == "amount"@ && resp.attributes@[3].value@
                == spec_dec_str(chain.balance as nat)
        }),
{
    if info.sender != state.manager {
        return Err(ContractError::Unauthorized {});
    }
    if chain.balance == 0 {
        return Err(
            ContractError::CustomError {
                val: "Nothing to transfer. Amount for bonded denom is zero".to_owned(),
            },
        );
    }
    let mut coins: Vec<Coin> = Vec::new();
    coins.push(Coin { denom: chain.bonded_denom.clone(), amount: chain.balance });
    let mut messages: Vec<OutMsg> = Vec::new();
    messages.push(OutMsg::Send { to_address: state.treasury.clone(), amount: coins });
    let mut attributes: Vec<Attribute> = Vec::new();
    attributes.push(attr("action", "transfer_balance".to_owned()));
    attributes.push(attr("dst_addr", state.treasury.clone()));
    attributes.push(attr("denom", chain.bonded_denom.clone()));
    attributes.push(attr("amount", dec_str(chain.balance)));
    Ok(Response { messages, attributes })
}

/// The claims of position `nft`, one per live unbonding entry, in entry
/// order.
pub open spec fn spec_claims_of(s: Seq<UnbondingEntry>, nft: Seq<char>) -> Seq<Claim>
    decreases s.len(),
{
    if s.len() == 0 {
        Seq::empty()
    } else {
        let rest = spec_claims_of(s.drop_last(), nft);
        if s.last().nft_id@ == nft {
            rest.push(Claim { amount: s.last().amount, release_at: s.last().release_at })
        } else {
            rest
        }
    }
}

/// The chain's reported delegation to one validator, or zero when none.
/// A passthrough of chain data; the ledger itself is not consulted.
pub fn query_bonded_on_validator(chain: &ChainInfo, val_address: &String) -> (r: Result<
    u128,
    ContractError,
>)
    ensures
        r == Ok::<u128, ContractError>(
            spec_chain_delegation_amount(chain.delegations@, val_address@) as u128,
        ),
{
    bonded_on_validator(chain, val_address)
}

/// Amount of the first delegation for `val_address`, or zero.
fn bonded_on_validator(chain: &ChainInfo, val_address: &String) -> (r: Result<
    u128,
    ContractError,
>)
    ensures
        r == Ok::<u128, ContractError>(
            spec_chain_delegation_amount(chain.delegations@, val_address@) as u128,
        ),
{
    match delegation_for(&chain.delegations, val_address) {
        Some(c) => Ok(c.amount),
        None => Ok(0),
    }
}

/// Answers a query over the ledger (and, for delegation and balance queries,
/// over the supplied chain snapshot).
pub fn query(state: &State, env: &Env, chain: &ChainInfo, msg: QueryMsg) -> (r: Result<
    QueryAnswer,
    ContractError,
>)
    requires
        state.wf(),
    ensures
        ({
            match msg {
                QueryMsg::Claims { nft_id } => r matches Ok(a) && a matches QueryAnswer::Claims(
                    c,
                ) && c.claims@ == spec_claims_of(state.unbonding_entries@, nft_id@),
                QueryMsg::ValidatorInfo { address } => {
                    if spec_has_validator(state.validators@, address@) {
                        r matches Ok(a) && a == QueryAnswer::ValidatorInfo(
                            spec_validator_for(state.validators@, address@).info,
                        )
                    } else {
                        r matches Err(e) && e matches ContractError::NotRegisteredValidator {
                            address: a,
                        } && a@ == address@
                    }
                },
                QueryMsg::TotalBonded {  } => r == Ok::<QueryAnswer, ContractError>(
                    QueryAnswer::Amount(state.total_bonded),
                ),
                QueryMsg::TotalClaimed {  } => r == Ok::<QueryAnswer, ContractError>(
                    QueryAnswer::Amount(state.total_claimed),
                ),
                QueryMsg::Bonded {  } => r == Ok::<QueryAnswer, ContractError>(
                    QueryAnswer::Amount(state.bonded),
                ),
                QueryMsg::Unbonding {  } => r == Ok::<QueryAnswer, ContractError>(
                    QueryAnswer::Amount(state.unbonding),
                ),
                QueryMsg::BondedOnValidator { address } => r == Ok::<QueryAnswer, ContractError>(
                    QueryAnswer::Amount(
                        spec_chain_delegation_amount(chain.delegations@, address@) as u128,
                    ),
                ),
                QueryMsg::BondedByNFT { nft_id } => r == Ok::<QueryAnswer, ContractError>(
                    QueryAnswer::Amount(
                        spec_position_amount(state.nft_bonded@, nft_id@) as u128,
                    ),
                ),
                QueryMsg::Agent {  } => r matches Ok(a) && a matches QueryAnswer::Address(s)
                    && s == state.agent,
                QueryMsg::Manager {  } => r matches Ok(a) && a matches QueryAnswer::Address(s)
                    && s == state.manager,
                QueryMsg::RewardsBalance {  } => r matches Ok(a) && a
                    matches QueryAnswer::Balance(c) && c.denom@ == chain.bonded_denom@
                    && c.amount == chain.balance,
                QueryMsg::DelegationOnValidator { address } => r matches Ok(a) && a
                    matches QueryAnswer::Delegation(d) && d == spec_delegation_for(
                    chain.delegations@,
                    address@,
                ),
                QueryMsg::AllDelegations {  } => r matches Ok(a) && a
                    matches QueryAnswer::AllDelegations(v) && v@ == chain.delegations@,
            }
        }),
{
    match msg {
        QueryMsg::Claims { nft_id } => {
            let n = state.unbonding_entries.len();
            let mut claims: Vec<Claim> = Vec::new();
            let mut i: usize = 0;
            proof {
                assert(state.unbonding_entries@.take(0) =~= Seq::<UnbondingEntry>::empty());
            }
            while i < n
                invariant
                    i <= n,
                    n == state.unbonding_entries@.len(),
                    claims@ == spec_claims_of(state.unbonding_entries@.take(i as int), nft_id@),
                decreases n - i,
            {
                proof {
                    assert(state.unbonding_entries@.take(i + 1).drop_last()
                        =~= state.unbonding_entries@.take(i as int));
                    assert(state.unbonding_entries@.take(i + 1).last()
                        == state.unbonding_entries@[i as int]);
                }
                let e = &state.unbonding_entries[i];
                if e.nft_id == nft_id {
                    claims.push(Claim { amount: e.amount, release_at: e.release_at });
                }
                i = i + 1;
            }
            proof {
                assert(state.unbonding_entries@.take(n as int) =~= state.unbonding_entries@);
            }
            Ok(QueryAnswer::Claims(ClaimsResponse { claims }))
        },
        QueryMsg::ValidatorInfo { address } => {
            match state.find_validator(&address) {
                Some(i) => {
                    proof {
                        let u = choose|u: int|
                            0 <= u < state.validators@.len() && state.validators@[u].address@
                                == address@;
                        if u != i as int {
                            assert(state.validators@[u].address@
                                != state.validators@[i as int].address@);
                        }
                    }
                    Ok(QueryAnswer::ValidatorInfo(state.validators[i].info.clone()))
                },
                None => Err(ContractError::NotRegisteredValidator { address }),
            }
        },
        QueryMsg::TotalBonded {  } => Ok(QueryAnswer::Amount(state.total_bonded)),
        QueryMsg::TotalClaimed {  } => Ok(QueryAnswer::Amount(state.total_claimed)),
        QueryMsg::Bonded {  } => Ok(QueryAnswer::Amount(state.bonded)),
        QueryMsg::Unbonding {  } => Ok(QueryAnswer::Amount(state.unbonding)),
        QueryMsg::BondedOnValidator { address } => {
            match bonded_on_validator(chain, &address) {
                Ok(a) => Ok(QueryAnswer::Amount(a)),
                Err(e) => Err(e),
            }
        },
        QueryMsg::BondedByNFT { nft_id } => {
            match state.find_position(&nft_id) {
                Some(j) => {
                    proof {
                        lemma_position_amount_unique(state.nft_bonded@, j as int);
                    }
                    Ok(QueryAnswer::Amount(state.nft_bonded[j].amount))
                },
                None => {
                    proof {
                        lemma_position_amount_absent(state.nft_bonded@, nft_id@);
                    }
                    Ok(QueryAnswer::Amount(0))
                },
            }
        },
        QueryMsg::Agent {  } => Ok(QueryAnswer::Address(state.agent.clone())),
        QueryMsg::Manager {  } => Ok(QueryAnswer::Address(state.manager.clone())),
        QueryMsg::RewardsBalance {  } => Ok(
            QueryAnswer::Balance(Coin { denom: chain.bonded_denom.clone(), amount: chain.balance }),
        ),
        QueryMsg::DelegationOnValidator { address } => {
            Ok(QueryAnswer::Delegation(find_delegation(&chain.delegations, &address)))
        },
        QueryMsg::AllDelegations {  } => {
            let n = chain.delegations.len();
            let mut v: Vec<Delegation> = Vec::new();
            let mut i: usize = 0;
            while i < n
                invariant
                    i <= n,
                    n == chain.delegations@.len(),
                    v@ == chain.delegations@.take(i as int),
                decreases n - i,
            {
                v.push(chain.delegations[i].clone());
                proof {
                    assert(v@ =~= chain.delegations@.take(i + 1));
                }
                i = i + 1;
            }
            proof {
                assert(chain.delegations@.take(n as int) =~= chain.delegations@);
            }
            Ok(QueryAnswer::AllDelegations(v))
        },
    }
}

/// The machine-range conditions of whichever operation the message selects.
pub open spec fn execute_fits(
    pre: State,
    env: Env,
    info: MessageInfo,
    chain: ChainInfo,
    msg: ExecuteMsg,
) -> bool {
    match msg {
        ExecuteMsg::Bond { .. } => bond_fits(pre, info.funds@),
        ExecuteMsg::Unbond { nft_id: _, amount } => unbond_fits(pre, amount, env),
        ExecuteMsg::Claim { nft_id: _, sender: _, amount } => claim_fits(pre, amount),
        ExecuteMsg::AddValidator { .. } => pre.validators@.len() < u64::MAX,
        ExecuteMsg::RemoveValidator { .. } => true,
        ExecuteMsg::BondCheck {  } => sum_delegations(chain.delegations@) <= u128::MAX,
        ExecuteMsg::CollectAngelRewards {  } => true,
    }
}

/// Routes an execute message to its operation.  Each operation's own
/// contract states exactly what it does; this router only adds that every
/// transition leaves the ledger well-formed and that errors leave it
/// untouched.
pub fn execute(
    state: &mut State,
    env: &Env,
    info: &MessageInfo,
    chain: &ChainInfo,
    msg: ExecuteMsg,
) -> (r: Result<Response, ContractError>)
    requires
        old(state).wf(),
        execute_fits(*old(state), *env, *info, *chain, msg),
    ensures
        final(state).wf(),
        r is Err ==> *final(state) == *old(state),
        (info.sender@ != old(state).agent@ && (msg is Bond || msg is Unbond || msg is Claim))
            ==> r == Err::<Response, ContractError>(ContractError::Unauthorized {}),
        (info.sender@ != old(state).manager@ && (msg is AddValidator || msg is RemoveValidator
            || msg is BondCheck || msg is CollectAngelRewards)) ==> r == Err::<
            Response,
            ContractError,
        >(ContractError::Unauthorized {}),
{
    match msg {
        ExecuteMsg::Bond { nft_id } => execute_bond(state, env, info, chain, nft_id),
        ExecuteMsg::Unbond { nft_id, amount } => execute_unbond(
            state,
            env,
            info,
            chain,
            nft_id,
            amount,
        ),
        ExecuteMsg::Claim { nft_id, sender, amount } => execute_claim(
            state,
            env,
            info,
            chain,
            nft_id,
            sender,
            amount,
        ),
        ExecuteMsg::AddValidator { address, bond_denom, unbonding_period } => {
            execute_add_validator(state, info, chain, address, bond_denom, unbonding_period)
        },
        ExecuteMsg::RemoveValidator { address } => {
            execute_remove_validator(state, env, info, chain, address)
        },
        ExecuteMsg::BondCheck {  } => execute_bond_check(&*state, env, info, chain),
        ExecuteMsg::CollectAngelRewards {  } => execute_collect_rewards(&*state, info),
    }
}

/// Conservation: a well-formed ledger's live pool totals equal the sums over
/// its validator records — `sum(validator.bonded) == pool.bonded` and
/// `sum(validator.unbonding) == pool.unbonding`.  Every operation in this
/// module requires and re-establishes `wf`, so along any run of successful
/// bonds, unbonds and claims these equalities hold after every call.
pub proof fn lemma_conservation(s: State)
    requires
        s.wf(),
    ensures
        sum_vr_bonded(s.validators@) == s.bonded,
        sum_vr_unbonding(s.validators@) == s.unbonding,
{
}

/// At least one token per involved validator: the split size `k` chosen for
/// `number_validators` never zeroes the per-validator share `amount / k`, for
/// any positive amount at least the validator count.  (A zero amount is the
/// one exception: its even share is zero for any `k`.)
pub proof fn lemma_split_count_at_least_one_each(number_validators: u64, amount: u128)
    requires
        amount >= number_validators,
        amount >= 1,
    ensures
        spec_split_count(number_validators) >= 1,
        amount as int / spec_split_count(number_validators) as int >= 1,
{
    let k = spec_split_count(number_validators) as int;
    assert(k >= 1);
    assert(k <= amount);
    lemma_fundamental_div_mod(amount as int, k);
    lemma_mod_bound(amount as int, k);
    if amount as int / k <= 0 {
        assert(amount as int == k * (amount as int / k) + amount as int % k);
        assert(k * (amount as int / k) <= 0) by (nonlinear_arith)
            requires
                k >= 1,
                amount as int / k <= 0,
        ;
    }
}

/// What a successful validator registration does to the ledger.
pub open spec fn add_validator_post(
    pre: State,
    post: State,
    address: Seq<char>,
    bond_denom: Seq<char>,
    unbonding_period: crate::state::Duration,
) -> bool {
    &&& post.validators@.len() == pre.validators@.len() + 1
    &&& post.validators@.last().address@ == address
    &&& post.validators@.last().info.bond_denom@ == bond_denom
    &&& post.validators@.last().info.unbonding_period == unbonding_period
    &&& post.validators@.last().info.bonded == 0
    &&& post.validators@.last().info.unbonding == 0
    &&& post.validators@.drop_last() == pre.validators@
    &&& post.number_validators == pre.number_validators + 1
    &&& post.bonded == pre.bonded
    &&& post.unbonding == pre.unbonding
    &&& post.total_bonded == pre.total_bonded
    &&& post.total_claimed == pre.total_claimed
    &&& post.agent == pre.agent
    &&& post.manager == pre.manager
    &&& post.treasury == pre.treasury
    &&& post.nft_bonded@ == pre.nft_bonded@
    &&& post.unbonding_entries@ == pre.unbonding_entries@
}

/// Registers a validator with zero totals.  Only the manager may call;
/// the address must be in the chain's active set and not yet registered, and
/// the denomination must be the chain's bondable one.  Re-registering an
/// already registered address always fails and never updates it.
pub fn execute_add_validator(
    state: &mut State,
    info: &MessageInfo,
    chain: &ChainInfo,
    validator_address: String,
    bond_denom: String,
    unbonding_period: crate::state::Duration,
) -> (r: Result<Response, ContractError>)
    requires
        old(state).wf(),
        old(state).validators@.len() < u64::MAX,
    ensures
        final(state).wf(),
        r is Err ==> *final(state) == *old(state),
        info.sender@ != old(state).manager@ ==> r == Err::<Response, ContractError>(
            ContractError::Unauthorized {},
        ),
        info.sender@ == old(state).manager@ && !spec_set_contains(
            chain.validator_set@,
            validator_address@,
        ) ==> (r matches Err(e) && e == (ContractError::NotInValidatorSet {
            validator: validator_address,
        })),
        info.sender@ == old(state).manager@ && spec_set_contains(
            chain.validator_set@,
            validator_address@,
        ) && spec_has_validator(old(state).validators@, validator_address@) ==> (r matches Err(e)
            && e == (ContractError::ValidatorAlreadyRegistered { validator: validator_address })),
        info.sender@ == old(state).manager@ && spec_set_contains(
            chain.validator_set@,
            validator_address@,
        ) && !spec_has_validator(old(state).validators@, validator_address@)
            && chain.bonded_denom@ != bond_denom@ ==> (r matches Err(e) && e
            == (ContractError::DenominationCanNotBeBonded { denom: bond_denom })),
        info.sender@ == old(state).manager@ && spec_set_contains(
            chain.validator_set@,
            validator_address@,
        ) && !spec_has_validator(old(state).validators@, validator_address@)
            && chain.bonded_denom@ == bond_denom@ ==> r is Ok && add_validator_post(
            *old(state),
            *final(state),
            validator_address@,
            bond_denom@,
            unbonding_period,
        ),
        r matches Ok(resp) ==> (resp.messages@.len() == 0 && resp.attributes@.len() == 2
            && resp.attributes@[0].key@ == "action"@ && resp.attributes@[0].value@
            == "add_validator"@ && resp.attributes@[1].key@ == "validator_address"@
            && resp.attributes@[1].value@ == validator_address@),
{
    if info.sender != state.manager {
        return Err(ContractError::Unauthorized {});
    }
    if !set_contains(&chain.validator_set, &validator_address) {
        return Err(ContractError::NotInValidatorSet { validator: validator_address });
    }
    if state.find_validator(&validator_address).is_some() {
        return Err(ContractError::ValidatorAlreadyRegistered { validator: validator_address });
    }
    if chain.bonded_denom != bond_denom {
        return Err(ContractError::DenominationCanNotBeBonded { denom: bond_denom });
    }

    let record = ValidatorRecord {
        address: validator_address.clone(),
        info: ValidatorInfo { bond_denom, unbonding_period, bonded: 0, unbonding: 0 },
    };
    proof {
        lemma_sum_vr_bonded_push(state.validators@, record);
        lemma_sum_vr_unbonding_push(state.validators@, record);
        lemma_sum_ue_for_validator_absent(state.unbonding_entries@, validator_address@);
    }
    state.validators.push(record);
    state.number_validators = state.number_validators + 1;
    proof {
        assert forall|i: int| 0 <= i < state.unbonding_entries@.len() implies spec_has_validator(
            state.validators@,
            state.unbonding_entries@[i].validator@,
        ) by {
            let v = state.unbonding_entries@[i].validator@;
            let j = choose|j: int|
                0 <= j < old(state).validators@.len() && old(state).validators@[j].address@ == v;
            assert(state.validators@[j].address@ == v);
        }
        assert(state.validators@.drop_last() =~= old(state).validators@);
    }

    let mut attributes: Vec<Attribute> = Vec::new();
    attributes.push(attr("action", "add_validator".to_owned()));
    attributes.push(attr("validator_address", validator_address));
    Ok(Response { messages: Vec::new(), attributes })
}

} // verus!
