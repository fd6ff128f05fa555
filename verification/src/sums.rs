//! Summation spec functions over the ledger's sequences, with the lemmas the
//! conservation proofs need (effect of `push`, `update` and `remove` on a sum,
//! and bounds of single elements against the whole sum).

use vstd::prelude::*;

use crate::state::{BlockInfo, PositionBond, UnbondingEntry, ValidatorRecord, spec_is_expired};

verus! {

/// Sum of `bonded` over a sequence of validator records.
pub open spec fn sum_vr_bonded(s: Seq<ValidatorRecord>) -> int
    decreases s.len(),
{
    if s.len() == 0 {
        0
    } else {
        sum_vr_bonded(s.drop_last()) + s.last().info.bonded
    }
}

/// Sum of `unbonding` over a sequence of validator records.
pub open spec fn sum_vr_unbonding(s: Seq<ValidatorRecord>) -> int
    decreases s.len(),
{
    if s.len() == 0 {
        0
    } else {
        sum_vr_unbonding(s.drop_last()) + s.last().info.unbonding
    }
}

/// Sum of the bonded amounts over the position ledger.
pub open spec fn sum_pb_amount(s: Seq<PositionBond>) -> int
    decreases s.len(),
{
    if s.len() == 0 {
        0
    } else {
        sum_pb_amount(s.drop_last()) + s.last().amount
    }
}

/// Sum of the amounts of all unbonding entries.
pub open spec fn sum_ue_amount(s: Seq<UnbondingEntry>) -> int
    decreases s.len(),
{
    if s.len() == 0 {
        0
    } else {
        sum_ue_amount(s.drop_last()) + s.last().amount
    }
}

/// Sum of the amounts of the unbonding entries that belong to one validator.
pub open spec fn sum_ue_for_validator(s: Seq<UnbondingEntry>, val: Seq<char>) -> int
    decreases s.len(),
{
    if s.len() == 0 {
        0
    } else {
        sum_ue_for_validator(s.drop_last(), val) + if s.last().validator@ == val {
            s.last().amount as int
        } else {
            0
        }
    }
}

/// Sum of the amounts of the unbonding entries of one position whose release
/// time has passed.
pub open spec fn sum_ue_matured(s: Seq<UnbondingEntry>, nft: Seq<char>, b: BlockInfo) -> int
    decreases s.len(),
{
    if s.len() == 0 {
        0
    } else {
        sum_ue_matured(s.drop_last(), nft, b) + if s.last().nft_id@ == nft && spec_is_expired(
            s.last().release_at,
            b,
        ) {
            s.last().amount as int
        } else {
            0
        }
    }
}

/// Sum of the matured amounts of one position's entries on one validator.
pub open spec fn sum_ue_matured_for_validator(
    s: Seq<UnbondingEntry>,
    nft: Seq<char>,
    b: BlockInfo,
    val: Seq<char>,
) -> int
    decreases s.len(),
{
    if s.len() == 0 {
        0
    } else {
        sum_ue_matured_for_validator(s.drop_last(), nft, b, val) + if s.last().nft_id@ == nft
            && spec_is_expired(s.last().release_at, b) && s.last().validator@ == val {
            s.last().amount as int
        } else {
            0
        }
    }
}

/// The unbonding entries left after settling the matured entries of `nft`,
/// keeping the order of everything else.
pub open spec fn spec_remove_matured(
    s: Seq<UnbondingEntry>,
    nft: Seq<char>,
    b: BlockInfo,
) -> Seq<UnbondingEntry>
    decreases s.len(),
{
    if s.len() == 0 {
        s
    } else {
        let rest = spec_remove_matured(s.drop_last(), nft, b);
        if s.last().nft_id@ == nft && spec_is_expired(s.last().release_at, b) {
            rest
        } else {
            rest.push(s.last())
        }
    }
}

/// The matured part never exceeds the whole, per validator and in total, and
/// every sum is nonnegative.
pub proof fn lemma_sum_ue_matured_bounds(s: Seq<UnbondingEntry>, nft: Seq<char>, b: BlockInfo)
    ensures
        0 <= sum_ue_matured(s, nft, b) <= sum_ue_amount(s),
        forall|val: Seq<char>|
            0 <= #[trigger] sum_ue_matured_for_validator(s, nft, b, val)
                <= sum_ue_for_validator(s, val),
    decreases s.len(),
{
    if s.len() > 0 {
        lemma_sum_ue_matured_bounds(s.drop_last(), nft, b);
        assert forall|val: Seq<char>|
            0 <= #[trigger] sum_ue_matured_for_validator(s, nft, b, val) <= sum_ue_for_validator(
                s,
                val,
            ) by {
            assert(0 <= sum_ue_matured_for_validator(s.drop_last(), nft, b, val)
                <= sum_ue_for_validator(s.drop_last(), val));
        }
    }
}

/// Matured sums grow along prefixes.
pub proof fn lemma_sum_ue_matured_prefix(
    s: Seq<UnbondingEntry>,
    i: int,
    nft: Seq<char>,
    b: BlockInfo,
)
    requires
        0 <= i <= s.len(),
    ensures
        sum_ue_matured(s.take(i), nft, b) <= sum_ue_matured(s, nft, b),
        forall|val: Seq<char>|
            #[trigger] sum_ue_matured_for_validator(s.take(i), nft, b, val)
                <= sum_ue_matured_for_validator(s, nft, b, val),
    decreases s.len() - i,
{
    if i == s.len() {
        assert(s.take(i) =~= s);
    } else {
        lemma_sum_ue_matured_prefix(s, i + 1, nft, b);
        assert(s.take(i + 1).drop_last() =~= s.take(i));
        assert(s.take(i + 1).last() == s[i]);
        lemma_sum_ue_matured_bounds(s.take(i), nft, b);
        assert forall|val: Seq<char>|
            #[trigger] sum_ue_matured_for_validator(s.take(i), nft, b, val)
                <= sum_ue_matured_for_validator(s, nft, b, val) by {
            assert(sum_ue_matured_for_validator(s.take(i + 1), nft, b, val)
                <= sum_ue_matured_for_validator(s, nft, b, val));
        }
    }
}

/// What settling leaves behind: the kept entries are the originals minus the
/// matured ones of `nft`, their sums drop by exactly the matured parts, the
/// pair keys stay pairwise distinct, and every kept entry is an original one.
pub proof fn lemma_remove_matured_props(s: Seq<UnbondingEntry>, nft: Seq<char>, b: BlockInfo)
    requires
        forall|i: int, j: int|
            0 <= i < j < s.len() ==> !(s[i].nft_id@ == s[j].nft_id@ && s[i].validator@
                == s[j].validator@),
    ensures
        sum_ue_amount(spec_remove_matured(s, nft, b)) == sum_ue_amount(s) - sum_ue_matured(
            s,
            nft,
            b,
        ),
        forall|val: Seq<char>|
            #[trigger] sum_ue_for_validator(spec_remove_matured(s, nft, b), val)
                == sum_ue_for_validator(s, val) - sum_ue_matured_for_validator(s, nft, b, val),
        forall|i: int|
            0 <= i < spec_remove_matured(s, nft, b).len() ==> s.contains(
                spec_remove_matured(s, nft, b)[i],
            ),
        forall|i: int, j: int|
            0 <= i < j < spec_remove_matured(s, nft, b).len() ==> !(spec_remove_matured(
                s,
                nft,
                b,
            )[i].nft_id@ == spec_remove_matured(s, nft, b)[j].nft_id@ && spec_remove_matured(
                s,
                nft,
                b,
            )[i].validator@ == spec_remove_matured(s, nft, b)[j].validator@),
    decreases s.len(),
{
    let r = spec_remove_matured(s, nft, b);
    if s.len() > 0 {
        assert(forall|i: int, j: int|
            0 <= i < j < s.drop_last().len() ==> !(s.drop_last()[i].nft_id@
                == s.drop_last()[j].nft_id@ && s.drop_last()[i].validator@
                == s.drop_last()[j].validator@));
        lemma_remove_matured_props(s.drop_last(), nft, b);
        let rest = spec_remove_matured(s.drop_last(), nft, b);
        if s.last().nft_id@ == nft && spec_is_expired(s.last().release_at, b) {
            assert(r == rest);
            assert forall|val: Seq<char>|
                #[trigger] sum_ue_for_validator(r, val) == sum_ue_for_validator(s, val)
                    - sum_ue_matured_for_validator(s, nft, b, val) by {
                assert(sum_ue_for_validator(rest, val) == sum_ue_for_validator(s.drop_last(), val)
                    - sum_ue_matured_for_validator(s.drop_last(), nft, b, val));
            }
        } else {
            assert(r == rest.push(s.last()));
            lemma_sum_ue_amount_push(rest, s.last());
            assert forall|val: Seq<char>|
                #[trigger] sum_ue_for_validator(r, val) == sum_ue_for_validator(s, val)
                    - sum_ue_matured_for_validator(s, nft, b, val) by {
                lemma_sum_ue_for_validator_push(rest, s.last(), val);
                assert(sum_ue_for_validator(rest, val) == sum_ue_for_validator(s.drop_last(), val)
                    - sum_ue_matured_for_validator(s.drop_last(), nft, b, val));
            }
        }
        assert forall|i: int| 0 <= i < rest.len() implies s.contains(rest[i]) by {
            assert(s.drop_last().contains(rest[i]));
            let w = choose|w: int| 0 <= w < s.drop_last().len() && s.drop_last()[w] == rest[i];
            assert(s[w] == rest[i]);
        }
        if !(s.last().nft_id@ == nft && spec_is_expired(s.last().release_at, b)) {
            assert(r == rest.push(s.last()));
            assert forall|i: int, j: int| 0 <= i < j < r.len() implies !(r[i].nft_id@
                == r[j].nft_id@ && r[i].validator@ == r[j].validator@) by {
                if j == r.len() - 1 {
                    assert(r[i] == rest[i]);
                    assert(r[j] == s.last());
                    assert(s.drop_last().contains(rest[i]));
                    let w = choose|w: int|
                        0 <= w < s.drop_last().len() && s.drop_last()[w] == rest[i];
                    assert(!(s[w].nft_id@ == s[s.len() - 1].nft_id@ && s[w].validator@
                        == s[s.len() - 1].validator@));
                } else {
                    assert(r[i] == rest[i]);
                    assert(r[j] == rest[j]);
                }
            }
        }
    }
}

pub proof fn lemma_sum_vr_bonded_push(s: Seq<ValidatorRecord>, v: ValidatorRecord)
    ensures
        sum_vr_bonded(s.push(v)) == sum_vr_bonded(s) + v.info.bonded,
{
    assert(s.push(v).drop_last() =~= s);
}

pub proof fn lemma_sum_vr_unbonding_push(s: Seq<ValidatorRecord>, v: ValidatorRecord)
    ensures
        sum_vr_unbonding(s.push(v)) == sum_vr_unbonding(s) + v.info.unbonding,
{
    assert(s.push(v).drop_last() =~= s);
}

pub proof fn lemma_sum_vr_bonded_update(s: Seq<ValidatorRecord>, i: int, v: ValidatorRecord)
    requires
        0 <= i < s.len(),
    ensures
        sum_vr_bonded(s.update(i, v)) == sum_vr_bonded(s) - s[i].info.bonded + v.info.bonded,
    decreases s.len(),
{
    if i == s.len() - 1 {
        assert(s.update(i, v).drop_last() =~= s.drop_last());
    } else {
        assert(s.update(i, v).drop_last() =~= s.drop_last().update(i, v));
        lemma_sum_vr_bonded_update(s.drop_last(), i, v);
    }
}

pub proof fn lemma_sum_vr_unbonding_update(s: Seq<ValidatorRecord>, i: int, v: ValidatorRecord)
    requires
        0 <= i < s.len(),
    ensures
        sum_vr_unbonding(s.update(i, v)) == sum_vr_unbonding(s) - s[i].info.unbonding
            + v.info.unbonding,
    decreases s.len(),
{
    if i == s.len() - 1 {
        assert(s.update(i, v).drop_last() =~= s.drop_last());
    } else {
        assert(s.update(i, v).drop_last() =~= s.drop_last().update(i, v));
        lemma_sum_vr_unbonding_update(s.drop_last(), i, v);
    }
}

pub proof fn lemma_sum_vr_bonded_remove(s: Seq<ValidatorRecord>, i: int)
    requires
        0 <= i < s.len(),
    ensures
        sum_vr_bonded(s.remove(i)) == sum_vr_bonded(s) - s[i].info.bonded,
    decreases s.len(),
{
    if i == s.len() - 1 {
        assert(s.remove(i) =~= s.drop_last());
    } else {
        assert(s.remove(i).drop_last() =~= s.drop_last().remove(i));
        lemma_sum_vr_bonded_remove(s.drop_last(), i);
    }
}

pub proof fn lemma_sum_vr_unbonding_remove(s: Seq<ValidatorRecord>, i: int)
    requires
        0 <= i < s.len(),
    ensures
        sum_vr_unbonding(s.remove(i)) == sum_vr_unbonding(s) - s[i].info.unbonding,
    decreases s.len(),
{
    if i == s.len() - 1 {
        assert(s.remove(i) =~= s.drop_last());
    } else {
        assert(s.remove(i).drop_last() =~= s.drop_last().remove(i));
        lemma_sum_vr_unbonding_remove(s.drop_last(), i);
    }
}

/// A single validator's `bonded` never exceeds the sum over all records.
pub proof fn lemma_sum_vr_bonded_bound(s: Seq<ValidatorRecord>, i: int)
    requires
        0 <= i < s.len(),
    ensures
        s[i].info.bonded <= sum_vr_bonded(s),
        sum_vr_bonded(s) >= 0,
    decreases s.len(),
{
    lemma_sum_vr_bonded_nonneg(s);
    if i < s.len() - 1 {
        lemma_sum_vr_bonded_bound(s.drop_last(), i);
    } else {
        lemma_sum_vr_bonded_nonneg(s.drop_last());
    }
}

pub proof fn lemma_sum_vr_bonded_nonneg(s: Seq<ValidatorRecord>)
    ensures
        sum_vr_bonded(s) >= 0,
    decreases s.len(),
{
    if s.len() > 0 {
        lemma_sum_vr_bonded_nonneg(s.drop_last());
    }
}

pub proof fn lemma_sum_vr_unbonding_nonneg(s: Seq<ValidatorRecord>)
    ensures
        sum_vr_unbonding(s) >= 0,
    decreases s.len(),
{
    if s.len() > 0 {
        lemma_sum_vr_unbonding_nonneg(s.drop_last());
    }
}

/// A single validator's `unbonding` never exceeds the sum over all records.
pub proof fn lemma_sum_vr_unbonding_bound(s: Seq<ValidatorRecord>, i: int)
    requires
        0 <= i < s.len(),
    ensures
        s[i].info.unbonding <= sum_vr_unbonding(s),
        sum_vr_unbonding(s) >= 0,
    decreases s.len(),
{
    lemma_sum_vr_unbonding_nonneg(s);
    if i < s.len() - 1 {
        lemma_sum_vr_unbonding_bound(s.drop_last(), i);
    } else {
        lemma_sum_vr_unbonding_nonneg(s.drop_last());
    }
}

/// Two distinct validators' `bonded` amounts together never exceed the sum.
pub proof fn lemma_sum_vr_bonded_pair_bound(s: Seq<ValidatorRecord>, i: int, j: int)
    requires
        0 <= i < s.len(),
        0 <= j < s.len(),
        i != j,
    ensures
        s[i].info.bonded + s[j].info.bonded <= sum_vr_bonded(s),
    decreases s.len(),
{
    let last = s.len() - 1;
    if i == last {
        lemma_sum_vr_bonded_bound(s.drop_last(), j);
    } else if j == last {
        lemma_sum_vr_bonded_bound(s.drop_last(), i);
    } else {
        lemma_sum_vr_bonded_pair_bound(s.drop_last(), i, j);
    }
}

pub proof fn lemma_sum_pb_amount_push(s: Seq<PositionBond>, v: PositionBond)
    ensures
        sum_pb_amount(s.push(v)) == sum_pb_amount(s) + v.amount,
{
    assert(s.push(v).drop_last() =~= s);
}

pub proof fn lemma_sum_pb_amount_update(s: Seq<PositionBond>, i: int, v: PositionBond)
    requires
        0 <= i < s.len(),
    ensures
        sum_pb_amount(s.update(i, v)) == sum_pb_amount(s) - s[i].amount + v.amount,
    decreases s.len(),
{
    if i == s.len() - 1 {
        assert(s.update(i, v).drop_last() =~= s.drop_last());
    } else {
        assert(s.update(i, v).drop_last() =~= s.drop_last().update(i, v));
        lemma_sum_pb_amount_update(s.drop_last(), i, v);
    }
}

pub proof fn lemma_sum_pb_amount_remove(s: Seq<PositionBond>, i: int)
    requires
        0 <= i < s.len(),
    ensures
        sum_pb_amount(s.remove(i)) == sum_pb_amount(s) - s[i].amount,
    decreases s.len(),
{
    if i == s.len() - 1 {
        assert(s.remove(i) =~= s.drop_last());
    } else {
        assert(s.remove(i).drop_last() =~= s.drop_last().remove(i));
        lemma_sum_pb_amount_remove(s.drop_last(), i);
    }
}

/// A single position's bonded amount never exceeds the sum over the ledger.
pub proof fn lemma_sum_pb_amount_bound(s: Seq<PositionBond>, i: int)
    requires
        0 <= i < s.len(),
    ensures
        s[i].amount <= sum_pb_amount(s),
        sum_pb_amount(s) >= 0,
    decreases s.len(),
{
    lemma_sum_pb_amount_nonneg(s);
    if i < s.len() - 1 {
        lemma_sum_pb_amount_bound(s.drop_last(), i);
    } else {
        lemma_sum_pb_amount_nonneg(s.drop_last());
    }
}

pub proof fn lemma_sum_pb_amount_nonneg(s: Seq<PositionBond>)
    ensures
        sum_pb_amount(s) >= 0,
    decreases s.len(),
{
    if s.len() > 0 {
        lemma_sum_pb_amount_nonneg(s.drop_last());
    }
}

pub proof fn lemma_sum_ue_amount_push(s: Seq<UnbondingEntry>, e: UnbondingEntry)
    ensures
        sum_ue_amount(s.push(e)) == sum_ue_amount(s) + e.amount,
{
    assert(s.push(e).drop_last() =~= s);
}

pub proof fn lemma_sum_ue_for_validator_push(
    s: Seq<UnbondingEntry>,
    e: UnbondingEntry,
    val: Seq<char>,
)
    ensures
        sum_ue_for_validator(s.push(e), val) == sum_ue_for_validator(s, val) + if e.validator@
            == val {
            e.amount as int
        } else {
            0
        },
{
    assert(s.push(e).drop_last() =~= s);
}

/// A single entry's amount never exceeds its validator's entry-sum.
pub proof fn lemma_sum_ue_for_validator_bound(s: Seq<UnbondingEntry>, i: int, val: Seq<char>)
    requires
        0 <= i < s.len(),
        s[i].validator@ == val,
    ensures
        s[i].amount <= sum_ue_for_validator(s, val),
    decreases s.len(),
{
    lemma_sum_ue_for_validator_nonneg(s, val);
    if i < s.len() - 1 {
        lemma_sum_ue_for_validator_bound(s.drop_last(), i, val);
    } else {
        lemma_sum_ue_for_validator_nonneg(s.drop_last(), val);
    }
}

pub proof fn lemma_sum_ue_for_validator_nonneg(s: Seq<UnbondingEntry>, val: Seq<char>)
    ensures
        sum_ue_for_validator(s, val) >= 0,
    decreases s.len(),
{
    if s.len() > 0 {
        lemma_sum_ue_for_validator_nonneg(s.drop_last(), val);
    }
}

/// A validator no entry names has entry-sum zero.
pub proof fn lemma_sum_ue_for_validator_absent(s: Seq<UnbondingEntry>, val: Seq<char>)
    requires
        forall|i: int| 0 <= i < s.len() ==> s[i].validator@ != val,
    ensures
        sum_ue_for_validator(s, val) == 0,
    decreases s.len(),
{
    if s.len() > 0 {
        lemma_sum_ue_for_validator_absent(s.drop_last(), val);
    }
}


} // verus!
