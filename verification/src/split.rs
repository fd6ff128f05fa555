//! The unbond split plan.  An unbond of one position is split across several
//! validators: first an even split over the `k` validators with the most
//! bonded (each must cover its share), and if fewer than `k` qualify, a
//! greedy walk of all validators in descending order consuming whole bonded
//! amounts until the request is covered.  The sum of the shares must equal
//! the requested amount exactly; otherwise the whole unbond is rejected.

use vstd::prelude::*;
use vstd::arithmetic::div_mod::{lemma_fundamental_div_mod, lemma_mod_bound};

use crate::error::ContractError;
use crate::order::{sort_validators_desc, spec_sort_desc, lemma_sort_desc_elems,
    lemma_sort_desc_addr_unique};
use crate::state::{Coin, State, ValidatorRecord};

verus! {

/// A split plan in the abstract: per-validator `(address, share)` pairs.
pub open spec fn plan_view(s: Seq<(String, Coin)>) -> Seq<(Seq<char>, int)> {
    s.map_values(|p: (String, Coin)| (p.0@, p.1.amount as int))
}

/// Sum of the shares of a plan.
pub open spec fn plan_sum(p: Seq<(Seq<char>, int)>) -> int
    decreases p.len(),
{
    if p.len() == 0 {
        0
    } else {
        plan_sum(p.drop_last()) + p.last().1
    }
}

/// The even split: walk `s` in order, assign `split` to each validator whose
/// bonded amount covers it and whose denomination matches, and stop after `k`
/// assignments.
pub open spec fn spec_plan_a(
    s: Seq<ValidatorRecord>,
    split: int,
    denom: Seq<char>,
    k: int,
) -> Seq<(Seq<char>, int)>
    decreases s.len(),
{
    if s.len() == 0 || k <= 0 {
        Seq::empty()
    } else if s[0].info.bonded >= split && s[0].info.bond_denom@ == denom {
        seq![(s[0].address@, split)] + spec_plan_a(s.drop_first(), split, denom, k - 1)
    } else {
        spec_plan_a(s.drop_first(), split, denom, k)
    }
}

/// The greedy fallback: walk `s` in order, consuming each validator's whole
/// bonded amount (skipping empty ones) until `remaining` is covered; the last
/// touched validator contributes only what is still missing.  Errs when the
/// walk exhausts `s` first.
pub open spec fn spec_plan_b(s: Seq<ValidatorRecord>, remaining: int) -> Result<
    Seq<(Seq<char>, int)>,
    (),
>
    decreases s.len(),
{
    if remaining <= 0 {
        Ok(Seq::empty())
    } else if s.len() == 0 {
        Err(())
    } else if s[0].info.bonded == 0 {
        spec_plan_b(s.drop_first(), remaining)
    } else if remaining > s[0].info.bonded {
        match spec_plan_b(s.drop_first(), remaining - s[0].info.bonded) {
            Ok(rest) => Ok(seq![(s[0].address@, s[0].info.bonded as int)] + rest),
            Err(e) => Err(e),
        }
    } else {
        Ok(seq![(s[0].address@, remaining)])
    }
}

/// The whole split decision for an unbond of `amount` over the registry
/// `vals`, split size `k`: plan A over the registry sorted descending, plan B
/// as the fallback, and the exactness check on the summed shares.
pub open spec fn spec_unstake_plan(
    vals: Seq<ValidatorRecord>,
    amount: u128,
    denom: Seq<char>,
    k: u64,
) -> Result<Seq<(Seq<char>, int)>, ContractError> {
    let sorted = spec_sort_desc(vals);
    let split = amount as int / k as int;
    let pa = spec_plan_a(sorted, split, denom, k as int);
    let plan: Result<Seq<(Seq<char>, int)>, ContractError> = if pa.len() == k {
        Ok(pa)
    } else {
        match spec_plan_b(sorted, amount as int) {
            Ok(p) => Ok(p),
            Err(_) => Err(
                ContractError::UnableUnstakeAmount {
                    amount,
                    number_validators: vals.len() as u64,
                },
            ),
        }
    };
    match plan {
        Ok(p) => if plan_sum(p) == amount {
            Ok(p)
        } else {
            Err(ContractError::UnableUnstakeAmount { amount, number_validators: k })
        },
        Err(e) => Err(e),
    }
}

/// What each entry of a plan guarantees against the registry `s` it was drawn
/// from: a positive share no larger than the bonded amount of the (unique)
/// record carrying that address.
pub open spec fn plan_entry_ok(s: Seq<ValidatorRecord>, entry: (Seq<char>, int)) -> bool {
    exists|i: int|
        0 <= i < s.len() && s[i].address@ == entry.0 && 0 < entry.1 <= s[i].info.bonded
}

/// Plan A draws distinct validators from `s`, each covering its equal share.
pub proof fn lemma_plan_a_props(s: Seq<ValidatorRecord>, split: int, denom: Seq<char>, k: int)
    requires
        split > 0,
        forall|p: int, q: int| 0 <= p < q < s.len() ==> s[p].address@ != s[q].address@,
    ensures
        spec_plan_a(s, split, denom, k).len() <= s.len(),
        forall|i: int|
            0 <= i < spec_plan_a(s, split, denom, k).len() ==> plan_entry_ok(
                s,
                spec_plan_a(s, split, denom, k)[i],
            ) && spec_plan_a(s, split, denom, k)[i].1 == split,
        forall|i: int, j: int|
            0 <= i < j < spec_plan_a(s, split, denom, k).len() ==> spec_plan_a(
                s,
                split,
                denom,
                k,
            )[i].0 != spec_plan_a(s, split, denom, k)[j].0,
        plan_sum(spec_plan_a(s, split, denom, k)) == spec_plan_a(s, split, denom, k).len()
            * split,
    decreases s.len(),
{
    let pa = spec_plan_a(s, split, denom, k);
    if s.len() == 0 || k <= 0 {
        assert(plan_sum(pa) == 0);
    } else {
        assert(forall|p: int, q: int|
            0 <= p < q < s.drop_first().len() ==> s.drop_first()[p].address@
                != s.drop_first()[q].address@);
        if s[0].info.bonded >= split && s[0].info.bond_denom@ == denom {
            let rest = spec_plan_a(s.drop_first(), split, denom, k - 1);
            lemma_plan_a_props(s.drop_first(), split, denom, k - 1);
            assert(pa == seq![(s[0].address@, split)] + rest);
            assert(pa.len() == rest.len() + 1);
            assert forall|i: int| 0 <= i < pa.len() implies plan_entry_ok(s, pa[i]) && pa[i].1
                == split by {
                if i == 0 {
                    assert(pa[0] == (s[0].address@, split));
                    assert(plan_entry_ok(s, pa[0]));
                } else {
                    assert(pa[i] == rest[i - 1]);
                    let w = choose|w: int|
                        0 <= w < s.drop_first().len() && s.drop_first()[w].address@ == rest[i
                            - 1].0 && 0 < rest[i - 1].1 <= s.drop_first()[w].info.bonded;
                    assert(s[w + 1] == s.drop_first()[w]);
                    assert(plan_entry_ok(s, pa[i]));
                }
            }
            assert forall|i: int, j: int| 0 <= i < j < pa.len() implies pa[i].0 != pa[j].0 by {
                if i == 0 {
                    // every later entry names a validator from the tail,
                    // whose address differs from the head's
                    let w = choose|w: int|
                        0 <= w < s.drop_first().len() && s.drop_first()[w].address@ == rest[j
                            - 1].0 && 0 < rest[j - 1].1 <= s.drop_first()[w].info.bonded;
                    assert(s[w + 1].address@ == rest[j - 1].0);
                    assert(s[0].address@ != s[w + 1].address@);
                } else {
                    assert(pa[i] == rest[i - 1] && pa[j] == rest[j - 1]);
                }
            }
            assert(plan_sum(pa) == pa.len() * split) by {
                lemma_plan_sum_cons((s[0].address@, split), rest);
                assert(plan_sum(rest) == rest.len() * split);
                assert((rest.len() + 1) * split == rest.len() * split + split) by (nonlinear_arith);
            }
        } else {
            lemma_plan_a_props(s.drop_first(), split, denom, k);
            assert forall|i: int| 0 <= i < pa.len() implies plan_entry_ok(s, pa[i]) && pa[i].1
                == split by {
                let w = choose|w: int|
                    0 <= w < s.drop_first().len() && s.drop_first()[w].address@ == pa[i].0 && 0
                        < pa[i].1 <= s.drop_first()[w].info.bonded;
                assert(s[w + 1] == s.drop_first()[w]);
            }
        }
    }
}

/// `plan_sum` over a one-element prefix concatenation.
proof fn lemma_plan_sum_cons(x: (Seq<char>, int), rest: Seq<(Seq<char>, int)>)
    ensures
        plan_sum(seq![x] + rest) == x.1 + plan_sum(rest),
    decreases rest.len(),
{
    let whole = seq![x] + rest;
    if rest.len() == 0 {
        assert(whole =~= seq![x]);
        assert(whole.drop_last() =~= Seq::<(Seq<char>, int)>::empty());
        assert(whole.last() == x);
        assert(plan_sum(whole.drop_last()) == 0);
        assert(plan_sum(whole) == plan_sum(whole.drop_last()) + whole.last().1);
        assert(plan_sum(rest) == 0);
    } else {
        assert(whole.drop_last() =~= seq![x] + rest.drop_last());
        lemma_plan_sum_cons(x, rest.drop_last());
        assert(whole.last() == rest.last());
        assert(plan_sum(whole) == plan_sum(whole.drop_last()) + whole.last().1);
        assert(plan_sum(rest) == plan_sum(rest.drop_last()) + rest.last().1);
    }
}

/// A successful plan B draws distinct validators from `s`, never more than a
/// validator's bonded amount, and covers `remaining` exactly.
pub proof fn lemma_plan_b_props(s: Seq<ValidatorRecord>, remaining: int)
    requires
        remaining >= 0,
        forall|p: int, q: int| 0 <= p < q < s.len() ==> s[p].address@ != s[q].address@,
    ensures
        spec_plan_b(s, remaining) matches Ok(p) ==> plan_sum(p) == remaining && (forall|i: int|
            0 <= i < p.len() ==> plan_entry_ok(s, p[i])) && (forall|i: int, j: int|
            0 <= i < j < p.len() ==> p[i].0 != p[j].0),
    decreases s.len(),
{
    if remaining <= 0 || s.len() == 0 {
        if remaining == 0 {
            assert(plan_sum(Seq::<(Seq<char>, int)>::empty()) == 0);
        }
    } else {
        assert(forall|p: int, q: int|
            0 <= p < q < s.drop_first().len() ==> s.drop_first()[p].address@
                != s.drop_first()[q].address@);
        if s[0].info.bonded == 0 {
            lemma_plan_b_props(s.drop_first(), remaining);
            assert(spec_plan_b(s, remaining) == spec_plan_b(s.drop_first(), remaining));
            if spec_plan_b(s, remaining) is Ok {
                let p = spec_plan_b(s, remaining)->Ok_0;
                assert(plan_sum(p) == remaining);
                assert forall|i: int| 0 <= i < p.len() implies plan_entry_ok(s, p[i]) by {
                    let w = choose|w: int|
                        0 <= w < s.drop_first().len() && s.drop_first()[w].address@ == p[i].0
                            && 0 < p[i].1 <= s.drop_first()[w].info.bonded;
                    assert(s[w + 1] == s.drop_first()[w]);
                }
            }
        } else if remaining > s[0].info.bonded {
            lemma_plan_b_props(s.drop_first(), remaining - s[0].info.bonded);
            if spec_plan_b(s.drop_first(), remaining - s[0].info.bonded) is Ok {
                let rest = spec_plan_b(s.drop_first(), remaining - s[0].info.bonded)->Ok_0;
                let head = (s[0].address@, s[0].info.bonded as int);
                let p = seq![head] + rest;
                lemma_plan_sum_cons(head, rest);
                assert(plan_sum(rest) == remaining - s[0].info.bonded);
                assert(plan_sum(p) == head.1 + plan_sum(rest));
                assert(spec_plan_b(s, remaining) == Ok::<Seq<(Seq<char>, int)>, ()>(p));
                assert forall|i: int| 0 <= i < p.len() implies plan_entry_ok(s, p[i]) by {
                    if i == 0 {
                        assert(p[0] == head);
                    } else {
                        assert(p[i] == rest[i - 1]);
                        let w = choose|w: int|
                            0 <= w < s.drop_first().len() && s.drop_first()[w].address@ == rest[i
                                - 1].0 && 0 < rest[i - 1].1 <= s.drop_first()[w].info.bonded;
                        assert(s[w + 1] == s.drop_first()[w]);
                    }
                }
                assert forall|i: int, j: int| 0 <= i < j < p.len() implies p[i].0 != p[j].0 by {
                    if i == 0 {
                        let w = choose|w: int|
                            0 <= w < s.drop_first().len() && s.drop_first()[w].address@ == rest[j
                                - 1].0 && 0 < rest[j - 1].1 <= s.drop_first()[w].info.bonded;
                        assert(s[w + 1].address@ == rest[j - 1].0);
                        assert(s[0].address@ != s[w + 1].address@);
                    } else {
                        assert(p[i] == rest[i - 1] && p[j] == rest[j - 1]);
                    }
                }
            }
        } else {
            let p = seq![(s[0].address@, remaining)];
            assert(p.drop_last() =~= Seq::<(Seq<char>, int)>::empty());
            assert(plan_sum(p.drop_last()) == 0);
            assert(p.last() == (s[0].address@, remaining));
            assert(plan_sum(p) == remaining);
            assert(plan_entry_ok(s, p[0]));
        }
    }
}

/// Every prefix of a plan with nonnegative shares sums below the whole.
pub proof fn lemma_plan_sum_take_le(p: Seq<(Seq<char>, int)>, i: int)
    requires
        0 <= i <= p.len(),
        forall|j: int| 0 <= j < p.len() ==> p[j].1 >= 0,
    ensures
        plan_sum(p.take(i)) <= plan_sum(p),
        plan_sum(p.take(i)) >= 0,
    decreases p.len() - i,
{
    assert forall|j: int| 0 <= j < p.take(i).len() implies p.take(i)[j].1 >= 0 by {
        assert(p.take(i)[j] == p[j]);
    }
    lemma_plan_sum_nonneg(p.take(i));
    if i == p.len() {
        assert(p.take(i) =~= p);
    } else {
        lemma_plan_sum_take_le(p, i + 1);
        assert(p.take(i + 1).drop_last() =~= p.take(i));
        assert(p.take(i + 1).last() == p[i]);
    }
}

pub proof fn lemma_plan_sum_nonneg(p: Seq<(Seq<char>, int)>)
    requires
        forall|j: int| 0 <= j < p.len() ==> p[j].1 >= 0,
    ensures
        plan_sum(p) >= 0,
    decreases p.len(),
{
    if p.len() > 0 {
        lemma_plan_sum_nonneg(p.drop_last());
    }
}

/// Computes the split plan for unbonding `amount` over `number_validators`
/// validators: pairs of validator address and the coin to undelegate from it.
/// The shares sum to `amount` exactly on success; when no plan covers the
/// amount exactly, the whole request is rejected.
pub fn chosen_validators_unstake(
    state: &State,
    amount: u128,
    denom: String,
    number_validators: u64,
) -> (r: Result<Vec<(String, Coin)>, ContractError>)
    requires
        state.wf(),
        1 <= number_validators,
        number_validators as int <= usize::MAX as int,
    ensures
        r is Ok <==> spec_unstake_plan(state.validators@, amount, denom@, number_validators)
            is Ok,
        r matches Ok(v) ==> (plan_view(v@) == spec_unstake_plan(
            state.validators@,
            amount,
            denom@,
            number_validators,
        )->Ok_0 && plan_sum(plan_view(v@)) == amount && (forall|i: int|
            0 <= i < v@.len() ==> v@[i].1.denom@ == denom@)),
        r is Err ==> r == Err::<Vec<(String, Coin)>, ContractError>(
            spec_unstake_plan(state.validators@, amount, denom@, number_validators)->Err_0,
        ),
{
    let limit: usize = number_validators as usize;
    let amount_to_split: u128 = amount / (number_validators as u128);
    let ghost split: int = amount as int / number_validators as int;
    let sorted = sort_validators_desc(&state.validators);
    let ghost sseq = spec_sort_desc(state.validators@);
    proof {
        lemma_sort_desc_elems(state.validators@);
    }
    let n = sorted.len();

    // Plan A: walk descending, assign the even share to every validator that
    // covers it, stop after `limit` assignments.
    let mut plan: Vec<(String, Coin)> = Vec::new();
    let mut i: usize = 0;
    proof {
        assert(sseq.skip(0) =~= sseq);
        assert(plan_view(plan@) =~= Seq::<(Seq<char>, int)>::empty());
        assert(plan_view(plan@) + spec_plan_a(sseq, split, denom@, limit as int) =~= spec_plan_a(
            sseq,
            split,
            denom@,
            limit as int,
        ));
    }
    while i < n && plan.len() < limit
        invariant
            i <= n,
            n == sseq.len(),
            sorted@ == sseq,
            plan@.len() <= limit,
            amount_to_split == split,
            plan_view(plan@) + spec_plan_a(sseq.skip(i as int), split, denom@, limit
                - plan@.len()) == spec_plan_a(sseq, split, denom@, limit as int),
            forall|t: int|
                0 <= t < plan@.len() ==> plan@[t].1.denom@ == denom@ && plan@[t].1.amount
                    == amount_to_split,
        decreases n - i,
    {
        let ghost pv = plan@;
        let rec = &sorted[i];
        proof {
            assert(sseq.skip(i as int)[0] == sseq[i as int]);
            assert(sseq.skip(i as int).drop_first() =~= sseq.skip(i + 1));
        }
        if rec.info.bonded >= amount_to_split && rec.info.bond_denom == denom {
            plan.push((rec.address.clone(), Coin { denom: denom.clone(), amount: amount_to_split }));
            proof {
                assert(plan_view(plan@) =~= plan_view(pv).push((sseq[i as int].address@, split)));
                assert(spec_plan_a(sseq.skip(i as int), split, denom@, limit - pv.len())
                    =~= seq![(sseq[i as int].address@, split)] + spec_plan_a(
                    sseq.skip(i + 1),
                    split,
                    denom@,
                    limit - pv.len() - 1,
                ));
                assert(plan_view(plan@) + spec_plan_a(sseq.skip(i + 1), split, denom@, limit
                    - plan@.len()) =~= plan_view(pv) + spec_plan_a(
                    sseq.skip(i as int),
                    split,
                    denom@,
                    limit - pv.len(),
                ));
            }
        }
        i = i + 1;
    }
    let count = plan.len();
    let vec_address_coin: Vec<(String, Coin)>;
    if count != limit {
        proof {
            assert(sseq.skip(i as int) =~= sseq.skip(i as int));
            if i == n {
                assert(sseq.skip(i as int).len() == 0);
                assert(spec_plan_a(sseq.skip(i as int), split, denom@, limit - plan@.len())
                    =~= Seq::<(Seq<char>, int)>::empty());
                assert(plan_view(plan@) + Seq::<(Seq<char>, int)>::empty() =~= plan_view(plan@));
            }
            assert(plan_view(plan@) == spec_plan_a(sseq, split, denom@, limit as int));
            assert(spec_plan_a(sseq, split, denom@, limit as int).len() != limit);
        }
        // Plan B: walk descending, consuming whole bonded amounts until the
        // request is covered.
        let mut planb: Vec<(String, Coin)> = Vec::new();
        let mut remaining: u128 = amount;
        let mut j: usize = 0;
        proof {
            assert(sseq.skip(0) =~= sseq);
            assert(plan_view(planb@) =~= Seq::<(Seq<char>, int)>::empty());
            if spec_plan_b(sseq, amount as int) is Ok {
                assert(plan_view(planb@) + spec_plan_b(sseq, amount as int)->Ok_0 =~= spec_plan_b(
                    sseq,
                    amount as int,
                )->Ok_0);
            }
        }
        while remaining > 0
            invariant
                j <= n,
                n == sseq.len(),
                sseq.len() == state.validators@.len(),
                sseq == spec_sort_desc(state.validators@),
                limit == number_validators as int,
                amount_to_split == split,
                split == amount as int / number_validators as int,
                spec_plan_a(sseq, split, denom@, limit as int).len() != limit,
                sorted@ == sseq,
                remaining <= amount,
                forall|t: int|
                    0 <= t < planb@.len() ==> planb@[t].1.denom@ == denom@ && planb@[t].1.amount
                        > 0,
                plan_sum(plan_view(planb@)) + remaining == amount,
                (match spec_plan_b(sseq.skip(j as int), remaining as int) {
                    Result::Ok(rest) => spec_plan_b(sseq, amount as int) == Ok::<
                        Seq<(Seq<char>, int)>,
                        (),
                    >(plan_view(planb@) + rest),
                    Result::Err(_) => spec_plan_b(sseq, amount as int) is Err,
                }),
            decreases n - j, remaining,
        {
            if j >= n {
                proof {
                    assert(sseq.skip(j as int).len() == 0);
                    assert(spec_plan_b(sseq.skip(j as int), remaining as int) is Err);
                }
                return Err(
                    ContractError::UnableUnstakeAmount {
                        amount,
                        number_validators: n as u64,
                    },
                );
            }
            let ghost pv = planb@;
            let ghost rem0: int = remaining as int;
            let b = sorted[j].info.bonded;
            proof {
                assert(sseq.skip(j as int)[0] == sseq[j as int]);
                assert(sseq.skip(j as int).drop_first() =~= sseq.skip(j + 1));
            }
            if b == 0 {
                j = j + 1;
            } else if remaining > b {
                planb.push((sorted[j].address.clone(), Coin { denom: denom.clone(), amount: b }));
                remaining = remaining - b;
                proof {
                    assert(plan_view(planb@) =~= plan_view(pv).push(
                        (sseq[j as int].address@, b as int),
                    ));
                    assert(plan_view(planb@).drop_last() =~= plan_view(pv));
                    if spec_plan_b(sseq.skip(j + 1), remaining as int) is Ok {
                        let rest = spec_plan_b(sseq.skip(j + 1), remaining as int)->Ok_0;
                        assert(spec_plan_b(sseq.skip(j as int), rem0) == Ok::<
                            Seq<(Seq<char>, int)>,
                            (),
                        >(seq![(sseq[j as int].address@, b as int)] + rest));
                        assert(plan_view(pv) + (seq![(sseq[j as int].address@, b as int)] + rest)
                            =~= plan_view(planb@) + rest);
                    }
                }
                j = j + 1;
            } else {
                planb.push(
                    (sorted[j].address.clone(), Coin { denom: denom.clone(), amount: remaining }),
                );
                proof {
                    assert(plan_view(planb@) =~= plan_view(pv).push(
                        (sseq[j as int].address@, rem0),
                    ));
                    assert(plan_view(planb@).drop_last() =~= plan_view(pv));
                    assert(spec_plan_b(sseq.skip(j as int), rem0) == Ok::<
                        Seq<(Seq<char>, int)>,
                        (),
                    >(seq![(sseq[j as int].address@, rem0)]));
                    assert(plan_view(pv) + seq![(sseq[j as int].address@, rem0)] =~= plan_view(
                        planb@,
                    ));
                    assert(plan_view(planb@) + Seq::<(Seq<char>, int)>::empty() =~= plan_view(
                        planb@,
                    ));
                }
                remaining = 0;
            }
        }
        proof {
            assert(spec_plan_b(sseq.skip(j as int), 0int) == Ok::<Seq<(Seq<char>, int)>, ()>(
                Seq::empty(),
            ));
            assert(plan_view(planb@) + Seq::<(Seq<char>, int)>::empty() =~= plan_view(planb@));
            assert(spec_plan_b(sseq, amount as int) == Ok::<Seq<(Seq<char>, int)>, ()>(
                plan_view(planb@),
            ));
            assert(plan_sum(plan_view(planb@)) == amount);
        }
        vec_address_coin = planb;
    } else {
        proof {
            assert(spec_plan_a(sseq.skip(i as int), split, denom@, 0int)
                =~= Seq::<(Seq<char>, int)>::empty());
            assert(plan_view(plan@) + Seq::<(Seq<char>, int)>::empty() =~= plan_view(plan@));
            assert(plan_view(plan@) == spec_plan_a(sseq, split, denom@, limit as int));
        }
        vec_address_coin = plan;
    }

    // The shares must cover the request exactly.
    let ghost chosen = plan_view(vec_address_coin@);
    proof {
        assert forall|t: int| 0 <= t < chosen.len() implies chosen[t].1 >= 0 by {
            assert(chosen[t].1 == vec_address_coin@[t].1.amount as int);
        }
        if count == limit {
            // an even plan of `limit` shares sums to `limit * split <= amount`
            assert(chosen.len() == limit);
            assert forall|t: int| 0 <= t < chosen.len() implies chosen[t].1 == split by {
                assert(chosen[t].1 == vec_address_coin@[t].1.amount as int);
            }
            lemma_plan_sum_all_equal(chosen, split);
            lemma_fundamental_div_mod(amount as int, number_validators as int);
            lemma_mod_bound(amount as int, number_validators as int);
            assert(plan_sum(chosen) == limit as int * split);
            assert(limit as int * split <= amount);
        }
        assert(plan_sum(chosen) <= amount);
    }
    let m = vec_address_coin.len();
    let mut sum: u128 = 0;
    let mut t: usize = 0;
    proof {
        assert(chosen.take(0) =~= Seq::<(Seq<char>, int)>::empty());
    }
    while t < m
        invariant
            t <= m,
            m == vec_address_coin@.len(),
            chosen == plan_view(vec_address_coin@),
            sum == plan_sum(chosen.take(t as int)),
            plan_sum(chosen) <= amount,
            forall|q: int| 0 <= q < chosen.len() ==> chosen[q].1 >= 0,
        decreases m - t,
    {
        proof {
            lemma_plan_sum_take_le(chosen, t + 1);
            assert(chosen.take(t + 1).drop_last() =~= chosen.take(t as int));
            assert(chosen.take(t + 1).last() == chosen[t as int]);
            assert(chosen[t as int].1 == vec_address_coin@[t as int].1.amount as int);
        }
        sum = sum + vec_address_coin[t].1.amount;
        t = t + 1;
    }
    proof {
        assert(chosen.take(m as int) =~= chosen);
    }

    if sum != amount {
        return Err(ContractError::UnableUnstakeAmount { amount, number_validators });
    }
    Ok(vec_address_coin)
}

/// The share a plan assigns to `addr` (zero when the plan does not touch it;
/// with pairwise-distinct plan addresses this is the single share).
pub open spec fn plan_share_for(p: Seq<(Seq<char>, int)>, addr: Seq<char>) -> int
    decreases p.len(),
{
    if p.len() == 0 {
        0
    } else {
        plan_share_for(p.drop_last(), addr) + if p.last().0 == addr {
            p.last().1
        } else {
            0
        }
    }
}

/// A plan assigns zero to an address it does not touch.
pub proof fn lemma_plan_share_absent(p: Seq<(Seq<char>, int)>, addr: Seq<char>)
    requires
        forall|t: int| 0 <= t < p.len() ==> p[t].0 != addr,
    ensures
        plan_share_for(p, addr) == 0,
    decreases p.len(),
{
    if p.len() > 0 {
        lemma_plan_share_absent(p.drop_last(), addr);
    }
}


/// In a plan with nonnegative shares, each single share is below the sum.
pub proof fn lemma_plan_item_le_sum(p: Seq<(Seq<char>, int)>, t: int)
    requires
        0 <= t < p.len(),
        forall|j: int| 0 <= j < p.len() ==> p[j].1 >= 0,
    ensures
        p[t].1 <= plan_sum(p),
{
    lemma_plan_sum_take_le(p, t);
    lemma_plan_sum_take_le(p, t + 1);
    assert(p.take(t + 1).drop_last() =~= p.take(t));
    assert(p.take(t + 1).last() == p[t]);
}

/// The first validator in the plan on which the position already has a live
/// unbonding entry, if any: such a plan is rejected as a double unbond.
pub open spec fn spec_first_conflict(
    p: Seq<(Seq<char>, int)>,
    entries: Seq<crate::state::UnbondingEntry>,
    nft: Seq<char>,
) -> Option<Seq<char>>
    decreases p.len(),
{
    if p.len() == 0 {
        None
    } else if crate::state::spec_has_entry(entries, nft, p[0].0) {
        Some(p[0].0)
    } else {
        spec_first_conflict(p.drop_first(), entries, nft)
    }
}

/// Without a first conflict there is no conflict at all.
pub proof fn lemma_first_conflict_none(
    p: Seq<(Seq<char>, int)>,
    entries: Seq<crate::state::UnbondingEntry>,
    nft: Seq<char>,
)
    requires
        spec_first_conflict(p, entries, nft) is None,
    ensures
        forall|t: int| 0 <= t < p.len() ==> !crate::state::spec_has_entry(entries, nft, p[t].0),
    decreases p.len(),
{
    if p.len() > 0 {
        lemma_first_conflict_none(p.drop_first(), entries, nft);
        assert forall|t: int| 0 <= t < p.len() implies !crate::state::spec_has_entry(
            entries,
            nft,
            p[t].0,
        ) by {
            if t > 0 {
                assert(p.drop_first()[t - 1] == p[t]);
            }
        }
    }
}

/// Every share of plan A equals the even split.
proof fn lemma_plan_a_share_values(s: Seq<ValidatorRecord>, split: int, denom: Seq<char>, k: int)
    ensures
        forall|i: int|
            0 <= i < spec_plan_a(s, split, denom, k).len() ==> spec_plan_a(
                s,
                split,
                denom,
                k,
            )[i].1 == split,
        spec_plan_a(s, split, denom, k).len() <= k || k <= 0,
    decreases s.len(),
{
    let pa = spec_plan_a(s, split, denom, k);
    if s.len() == 0 || k <= 0 {
    } else if s[0].info.bonded >= split && s[0].info.bond_denom@ == denom {
        lemma_plan_a_share_values(s.drop_first(), split, denom, k - 1);
        let rest = spec_plan_a(s.drop_first(), split, denom, k - 1);
        assert forall|i: int| 0 <= i < pa.len() implies pa[i].1 == split by {
            if i > 0 {
                assert(pa[i] == rest[i - 1]);
            }
        }
    } else {
        lemma_plan_a_share_values(s.drop_first(), split, denom, k);
    }
}

/// What a successful split plan guarantees against the registry it was drawn
/// from: shares that sum to the requested amount exactly, each positive and
/// covered by the bonded amount of the (registered) validator it names, and
/// no validator named twice.
pub proof fn lemma_unstake_plan_props(
    vals: Seq<ValidatorRecord>,
    amount: u128,
    denom: Seq<char>,
    k: u64,
)
    requires
        amount > 0,
        k >= 1,
        forall|p: int, q: int| 0 <= p < q < vals.len() ==> vals[p].address@ != vals[q].address@,
        spec_unstake_plan(vals, amount, denom, k) is Ok,
    ensures
        ({
            let p = spec_unstake_plan(vals, amount, denom, k)->Ok_0;
            &&& plan_sum(p) == amount
            &&& forall|t: int| 0 <= t < p.len() ==> plan_entry_ok(vals, p[t])
            &&& forall|t: int, q: int| 0 <= t < q < p.len() ==> p[t].0 != p[q].0
        }),
{
    let sorted = spec_sort_desc(vals);
    let split = amount as int / k as int;
    let pa = spec_plan_a(sorted, split, denom, k as int);
    let p = spec_unstake_plan(vals, amount, denom, k)->Ok_0;
    lemma_sort_desc_elems(vals);
    lemma_sort_desc_addr_unique(vals);
    if pa.len() == k {
        assert(p == pa);
        assert(plan_sum(p) == amount);
        lemma_plan_a_share_values(sorted, split, denom, k as int);
        lemma_plan_sum_all_equal(pa, split);
        assert(pa.len() * split == amount);
        assert(split > 0) by {
            if split <= 0 {
                assert(pa.len() * split <= 0) by (nonlinear_arith)
                    requires
                        split <= 0,
                        pa.len() >= 0,
                ;
            }
        }
        lemma_plan_a_props(sorted, split, denom, k as int);
        assert forall|t: int| 0 <= t < p.len() implies plan_entry_ok(vals, p[t]) by {
            let w = choose|w: int|
                0 <= w < sorted.len() && sorted[w].address@ == p[t].0 && 0 < p[t].1
                    <= sorted[w].info.bonded;
            assert(sorted.contains(sorted[w]));
            assert(vals.contains(sorted[w]));
            let u = choose|u: int| 0 <= u < vals.len() && vals[u] == sorted[w];
            assert(plan_entry_ok(vals, p[t]));
        }
    } else {
        assert(spec_plan_b(sorted, amount as int) is Ok);
        assert(p == spec_plan_b(sorted, amount as int)->Ok_0);
        lemma_plan_b_props(sorted, amount as int);
        assert forall|t: int| 0 <= t < p.len() implies plan_entry_ok(vals, p[t]) by {
            let w = choose|w: int|
                0 <= w < sorted.len() && sorted[w].address@ == p[t].0 && 0 < p[t].1
                    <= sorted[w].info.bonded;
            assert(sorted.contains(sorted[w]));
            assert(vals.contains(sorted[w]));
            let u = choose|u: int| 0 <= u < vals.len() && vals[u] == sorted[w];
            assert(plan_entry_ok(vals, p[t]));
        }
    }
}

/// The sum of a plan whose shares all equal `x` is `len * x`.
proof fn lemma_plan_sum_all_equal(p: Seq<(Seq<char>, int)>, x: int)
    requires
        forall|t: int| 0 <= t < p.len() ==> p[t].1 == x,
    ensures
        plan_sum(p) == p.len() * x,
    decreases p.len(),
{
    if p.len() == 0 {
    } else {
        lemma_plan_sum_all_equal(p.drop_last(), x);
        assert((p.len() - 1) * x + x == p.len() as int * x) by (nonlinear_arith);
    }
}

} // verus!
