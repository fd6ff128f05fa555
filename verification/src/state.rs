//! Data model of the staking ledger: validators with bonded/unbonding totals,
//! per-position bonded amounts, per-(position, validator) unbonding entries,
//! and the pool counters, together with the well-formedness predicate that
//! every operation preserves.

use vstd::prelude::*;

use crate::sums::{
    sum_pb_amount, sum_ue_amount, sum_ue_for_validator, sum_vr_bonded, sum_vr_unbonding,
};

verus! {

/// A native token amount paired with its denomination.
#[derive(Debug, PartialEq, Eq)]
pub struct Coin {
    pub denom: String,
    pub amount: u128,
}

impl Clone for Coin {
    /// An exact copy.
    fn clone(&self) -> (r: Self)
        ensures
            r == *self,
    {
        Coin { denom: self.denom.clone(), amount: self.amount }
    }
}

/// A length of time, counted in blocks or in seconds.
#[derive(Debug, Clone, Copy, PartialEq, Eq)]
pub enum Duration {
    Height(u64),
    Time(u64),
}

/// A point at which a claim matures: a block height, a time in nanoseconds,
/// or never.
#[derive(Debug, Clone, Copy, PartialEq, Eq)]
pub enum Expiration {
    AtHeight(u64),
    AtTime(u64),
    Never,
}

/// The chain position at which an operation runs; `time` is in nanoseconds.
#[derive(Debug, Clone, Copy, PartialEq, Eq)]
pub struct BlockInfo {
    pub height: u64,
    pub time: u64,
}

/// Whether `e` has passed at block `b`.
pub open spec fn spec_is_expired(e: Expiration, b: BlockInfo) -> bool {
    match e {
        Expiration::AtHeight(h) => b.height >= h,
        Expiration::AtTime(t) => b.time >= t,
        Expiration::Never => false,
    }
}

/// Whether the expiration `d` steps after block `b` fits in the machine range.
pub open spec fn spec_after_fits(d: Duration, b: BlockInfo) -> bool {
    match d {
        Duration::Height(h) => b.height + h <= u64::MAX,
        Duration::Time(t) => b.time + t * 1_000_000_000 <= u64::MAX,
    }
}

/// The expiration reached `d` after block `b`.
pub open spec fn spec_after(d: Duration, b: BlockInfo) -> Expiration {
    match d {
        Duration::Height(h) => Expiration::AtHeight((b.height + h) as u64),
        Duration::Time(t) => Expiration::AtTime((b.time + t * 1_000_000_000) as u64),
    }
}

impl Duration {
    /// The expiration reached `self` after block `b` (heights add in blocks,
    /// times add in seconds on a nanosecond clock).
    pub fn after(&self, b: &BlockInfo) -> (r: Expiration)
        requires
            spec_after_fits(*self, *b),
        ensures
            r == spec_after(*self, *b),
    {
        match self {
            Duration::Height(h) => Expiration::AtHeight(b.height + *h),
            Duration::Time(t) => Expiration::AtTime(b.time + *t * 1_000_000_000),
        }
    }
}

impl Expiration {
    /// Whether this expiration has passed at block `b`.
    pub fn is_expired(&self, b: &BlockInfo) -> (r: bool)
        ensures
            r == spec_is_expired(*self, *b),
    {
        match self {
            Expiration::AtHeight(h) => b.height >= *h,
            Expiration::AtTime(t) => b.time >= *t,
            Expiration::Never => false,
        }
    }
}

/// Per-validator ledger data: the denomination it accepts, its unbonding
/// period, and its bonded and unbonding totals.
#[derive(Debug, PartialEq, Eq)]
pub struct ValidatorInfo {
    /// Denomination that can be staked on this validator.
    pub bond_denom: String,
    /// Unbonding period of the chain's native staking module.
    pub unbonding_period: Duration,
    pub bonded: u128,
    pub unbonding: u128,
}

/// A registered validator: its address together with its ledger data.
#[derive(Debug, PartialEq, Eq)]
pub struct ValidatorRecord {
    pub address: String,
    pub info: ValidatorInfo,
}

impl Clone for ValidatorInfo {
    /// An exact copy.
    fn clone(&self) -> (r: Self)
        ensures
            r == *self,
    {
        ValidatorInfo {
            bond_denom: self.bond_denom.clone(),
            unbonding_period: self.unbonding_period,
            bonded: self.bonded,
            unbonding: self.unbonding,
        }
    }
}

impl Clone for ValidatorRecord {
    /// An exact copy.
    fn clone(&self) -> (r: Self)
        ensures
            r == *self,
    {
        ValidatorRecord { address: self.address.clone(), info: self.info.clone() }
    }
}

/// A position's total currently bonded amount, keyed by the receipt id.
#[derive(Debug, Clone, PartialEq, Eq)]
pub struct PositionBond {
    pub nft_id: String,
    pub amount: u128,
}

/// Funds of one position mid-unbonding on one validator.  At most one live
/// entry may exist per `(nft_id, validator)` pair; the entry doubles as the
/// position's claim of `amount`, payable once `release_at` has passed.
#[derive(Debug, PartialEq, Eq)]
pub struct UnbondingEntry {
    pub nft_id: String,
    pub validator: String,
    pub amount: u128,
    pub release_at: Expiration,
}

impl Clone for UnbondingEntry {
    /// An exact copy.
    fn clone(&self) -> (r: Self)
        ensures
            r == *self,
    {
        UnbondingEntry {
            nft_id: self.nft_id.clone(),
            validator: self.validator.clone(),
            amount: self.amount,
            release_at: self.release_at,
        }
    }
}

/// One maturing claim of a position, as reported by the claims query.
#[derive(Debug, Clone, PartialEq, Eq)]
pub struct Claim {
    pub amount: u128,
    pub release_at: Expiration,
}

/// The whole ledger state.  Every operation takes it by reference and either
/// commits a full transition or returns an error leaving it untouched.
#[derive(Debug, Clone, PartialEq, Eq)]
pub struct State {
    /// Registered validators, keyed by address.
    pub validators: Vec<ValidatorRecord>,
    /// Live pool total currently bonded; rises on bond, falls on unbond.
    pub bonded: u128,
    /// Live pool total currently unbonding; rises on unbond, falls on claim.
    pub unbonding: u128,
    /// Lifetime sum ever bonded (monotonic).
    pub total_bonded: u128,
    /// Lifetime sum ever paid out (monotonic).
    pub total_claimed: u128,
    /// Count of registered validators, drives the unbond split size.
    pub number_validators: u64,
    /// The only identity allowed to bond, unbond and claim.
    pub agent: String,
    /// The only identity allowed to manage validators and collect rewards.
    pub manager: String,
    /// Recipient of collected rewards.
    pub treasury: String,
    /// Per-position bonded amounts, keyed by receipt id.
    pub nft_bonded: Vec<PositionBond>,
    /// Per-(position, validator) unbonding entries; also the claims ledger.
    pub unbonding_entries: Vec<UnbondingEntry>,
}

/// Whether some record in `s` carries the address `addr`.
pub open spec fn spec_has_validator(s: Seq<ValidatorRecord>, addr: Seq<char>) -> bool {
    exists|i: int| 0 <= i < s.len() && s[i].address@ == addr
}

/// Whether some position entry in `s` carries the id `nft`.
pub open spec fn spec_has_position(s: Seq<PositionBond>, nft: Seq<char>) -> bool {
    exists|i: int| 0 <= i < s.len() && s[i].nft_id@ == nft
}

/// The bonded amount recorded for position `nft` (zero when absent; under
/// key uniqueness this is the single entry's amount).
pub open spec fn spec_position_amount(s: Seq<PositionBond>, nft: Seq<char>) -> int
    decreases s.len(),
{
    if s.len() == 0 {
        0
    } else if s[0].nft_id@ == nft {
        s[0].amount as int
    } else {
        spec_position_amount(s.drop_first(), nft)
    }
}

/// An absent position has recorded amount zero.
pub proof fn lemma_position_amount_absent(s: Seq<PositionBond>, nft: Seq<char>)
    requires
        !spec_has_position(s, nft),
    ensures
        spec_position_amount(s, nft) == 0,
    decreases s.len(),
{
    if s.len() > 0 {
        assert(s[0].nft_id@ != nft);
        assert forall|i: int| 0 <= i < s.drop_first().len() implies s.drop_first()[i].nft_id@
            != nft by {
            assert(s.drop_first()[i] == s[i + 1]);
        }
        lemma_position_amount_absent(s.drop_first(), nft);
    }
}

/// Under key uniqueness, any matching entry's amount is the recorded amount.
pub proof fn lemma_position_amount_unique(s: Seq<PositionBond>, j: int)
    requires
        0 <= j < s.len(),
        forall|p: int, q: int| 0 <= p < q < s.len() ==> s[p].nft_id@ != s[q].nft_id@,
    ensures
        spec_position_amount(s, s[j].nft_id@) == s[j].amount,
    decreases s.len(),
{
    if j > 0 {
        assert(s[0].nft_id@ != s[j].nft_id@);
        assert(forall|p: int, q: int|
            0 <= p < q < s.drop_first().len() ==> s.drop_first()[p].nft_id@
                != s.drop_first()[q].nft_id@);
        lemma_position_amount_unique(s.drop_first(), j - 1);
        assert(s.drop_first()[j - 1] == s[j]);
    }
}

/// The record registered under `addr` (meaningful only under address
/// uniqueness and `spec_has_validator`).
pub open spec fn spec_validator_for(s: Seq<ValidatorRecord>, addr: Seq<char>) -> ValidatorRecord {
    s[choose|i: int| 0 <= i < s.len() && s[i].address@ == addr]
}

/// Whether a live unbonding entry exists for the pair `(nft, val)`.
pub open spec fn spec_has_entry(s: Seq<UnbondingEntry>, nft: Seq<char>, val: Seq<char>) -> bool {
    exists|i: int| 0 <= i < s.len() && s[i].nft_id@ == nft && s[i].validator@ == val
}

impl State {
    /// Validator addresses are pairwise distinct.
    pub open spec fn validators_unique(self) -> bool {
        forall|i: int, j: int|
            0 <= i < j < self.validators@.len() ==> self.validators@[i].address@
                != self.validators@[j].address@
    }

    /// Position ids are pairwise distinct and every bonded amount is positive.
    pub open spec fn positions_wf(self) -> bool {
        &&& forall|i: int, j: int|
            0 <= i < j < self.nft_bonded@.len() ==> self.nft_bonded@[i].nft_id@
                != self.nft_bonded@[j].nft_id@
        &&& forall|i: int| 0 <= i < self.nft_bonded@.len() ==> self.nft_bonded@[i].amount > 0
    }

    /// Unbonding entries carry pairwise distinct `(position, validator)`
    /// pairs, positive amounts, and only registered validators.
    pub open spec fn entries_wf(self) -> bool {
        &&& forall|i: int, j: int|
            0 <= i < j < self.unbonding_entries@.len() ==> !(self.unbonding_entries@[i].nft_id@
                == self.unbonding_entries@[j].nft_id@ && self.unbonding_entries@[i].validator@
                == self.unbonding_entries@[j].validator@)
        &&& forall|i: int| 0 <= i < self.unbonding_entries@.len() ==> self.unbonding_entries@[i].amount > 0
        &&& forall|i: int|
            0 <= i < self.unbonding_entries@.len() ==> spec_has_validator(
                self.validators@,
                self.unbonding_entries@[i].validator@,
            )
    }

    /// The conservation clauses: the live pool totals equal the sums over the
    /// validator records, the position ledger, and the unbonding entries, and
    /// each validator's `unbonding` equals the sum of its own entries.
    pub open spec fn conservation(self) -> bool {
        &&& sum_vr_bonded(self.validators@) == self.bonded
        &&& sum_vr_unbonding(self.validators@) == self.unbonding
        &&& sum_pb_amount(self.nft_bonded@) == self.bonded
        &&& sum_ue_amount(self.unbonding_entries@) == self.unbonding
        &&& forall|i: int|
            0 <= i < self.validators@.len() ==> self.validators@[i].info.unbonding
                == sum_ue_for_validator(self.unbonding_entries@, self.validators@[i].address@)
    }

    /// Well-formedness: all key-uniqueness clauses, the validator counter, and
    /// conservation.  Established by `instantiate` and preserved by every
    /// operation.
    pub open spec fn wf(self) -> bool {
        &&& self.validators_unique()
        &&& self.positions_wf()
        &&& self.entries_wf()
        &&& self.number_validators == self.validators@.len()
        &&& self.conservation()
    }

    /// Index of the validator record with address `addr`.
    pub fn find_validator(&self, addr: &String) -> (r: Option<usize>)
        ensures
            match r {
                Some(i) => i < self.validators@.len() && self.validators@[i as int].address@
                    == addr@,
                None => !spec_has_validator(self.validators@, addr@),
            },
    {
        let n = self.validators.len();
        let mut i: usize = 0;
        while i < n
            invariant
                i <= n,
                n == self.validators@.len(),
                forall|j: int| 0 <= j < i ==> self.validators@[j].address@ != addr@,
            decreases n - i,
        {
            if self.validators[i].address == *addr {
                return Some(i);
            }
            i = i + 1;
        }
        None
    }

    /// Index of the position entry with id `nft`.
    pub fn find_position(&self, nft: &String) -> (r: Option<usize>)
        ensures
            match r {
                Some(i) => i < self.nft_bonded@.len() && self.nft_bonded@[i as int].nft_id@
                    == nft@,
                None => !spec_has_position(self.nft_bonded@, nft@),
            },
    {
        let n = self.nft_bonded.len();
        let mut i: usize = 0;
        while i < n
            invariant
                i <= n,
                n == self.nft_bonded@.len(),
                forall|j: int| 0 <= j < i ==> self.nft_bonded@[j].nft_id@ != nft@,
            decreases n - i,
        {
            if self.nft_bonded[i].nft_id == *nft {
                return Some(i);
            }
            i = i + 1;
        }
        None
    }

    /// Index of the live unbonding entry for `(nft, val)`.
    pub fn find_entry(&self, nft: &String, val: &String) -> (r: Option<usize>)
        ensures
            match r {
                Some(i) => i < self.unbonding_entries@.len() && self.unbonding_entries@[i as int].nft_id@
                    == nft@ && self.unbonding_entries@[i as int].validator@ == val@,
                None => !spec_has_entry(self.unbonding_entries@, nft@, val@),
            },
    {
        let n = self.unbonding_entries.len();
        let mut i: usize = 0;
        while i < n
            invariant
                i <= n,
                n == self.unbonding_entries@.len(),
                forall|j: int|
                    0 <= j < i ==> !(self.unbonding_entries@[j].nft_id@ == nft@
                        && self.unbonding_entries@[j].validator@ == val@),
            decreases n - i,
        {
            if self.unbonding_entries[i].nft_id == *nft && self.unbonding_entries[i].validator
                == *val {
                return Some(i);
            }
            i = i + 1;
        }
        None
    }

    /// An empty ledger with the three privileged identities set.
    pub fn new(agent: String, manager: String, treasury: String) -> (r: State)
        ensures
            r.wf(),
            r.validators@.len() == 0,
            r.nft_bonded@.len() == 0,
            r.unbonding_entries@.len() == 0,
            r.bonded == 0,
            r.unbonding == 0,
            r.total_bonded == 0,
            r.total_claimed == 0,
            r.number_validators == 0,
            r.agent == agent,
            r.manager == manager,
            r.treasury == treasury,
    {
        State {
            validators: Vec::new(),
            bonded: 0,
            unbonding: 0,
            total_bonded: 0,
            total_claimed: 0,
            number_validators: 0,
            agent,
            manager,
            treasury,
            nft_bonded: Vec::new(),
            unbonding_entries: Vec::new(),
        }
    }
}

} // verus!
