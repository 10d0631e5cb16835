//! The status algebra: the ordered status of an execution transaction and the two
//! rules that derive it from insurance deposits and confirmations.
use crate::error::Error;
use crate::primitives::{
    AccountId, Balance, BlockNumber, FullSideEffect, SideEffectId, StepView, StepsView,
};
use core::cmp::Ordering;
use vstd::prelude::*;

verus! {

/// Status of an execution transaction. The statuses are totally ordered, in the
/// order in which they are listed here.
#[derive(Clone, Copy, Debug, PartialEq, Eq, Structural)]
pub enum CircuitStatus {
    Requested,
    PendingInsurance,
    Bonded,
    Ready,
    PendingExecution,
    Finished,
    FinishedAllSteps,
    RevertTimedOut,
    RevertMisbehaviour,
    Reverted,
    RevertKill,
}

impl CircuitStatus {
    /// Position of the status in the order.
    pub open spec fn rank(self) -> nat {
        match self {
            CircuitStatus::Requested => 0,
            CircuitStatus::PendingInsurance => 1,
            CircuitStatus::Bonded => 2,
            CircuitStatus::Ready => 3,
            CircuitStatus::PendingExecution => 4,
            CircuitStatus::Finished => 5,
            CircuitStatus::FinishedAllSteps => 6,
            CircuitStatus::RevertTimedOut => 7,
            CircuitStatus::RevertMisbehaviour => 8,
            CircuitStatus::Reverted => 9,
            CircuitStatus::RevertKill => 10,
        }
    }

    /// The statuses of the revert family.
    pub open spec fn is_revert(self) -> bool {
        self.rank() >= 7
    }

    /// The statuses that halt every further transition.
    pub open spec fn is_terminal(self) -> bool {
        self.rank() >= 6
    }

    /// The statuses of a transaction that is still under way.
    pub open spec fn is_active(self) -> bool {
        self.rank() < 6
    }

    /// Position of the status in the order.
    pub fn ordinal(&self) -> (r: u8)
        ensures
            r == self.rank(),
    {
        match self {
            CircuitStatus::Requested => 0,
            CircuitStatus::PendingInsurance => 1,
            CircuitStatus::Bonded => 2,
            CircuitStatus::Ready => 3,
            CircuitStatus::PendingExecution => 4,
            CircuitStatus::Finished => 5,
            CircuitStatus::FinishedAllSteps => 6,
            CircuitStatus::RevertTimedOut => 7,
            CircuitStatus::RevertMisbehaviour => 8,
            CircuitStatus::Reverted => 9,
            CircuitStatus::RevertKill => 10,
        }
    }

    /// Tells whether the status belongs to the revert family.
    pub fn in_revert_family(&self) -> (r: bool)
        ensures
            r == self.is_revert(),
    {
        self.ordinal() >= 7
    }

    /// Tells whether the status halts every further transition.
    pub fn terminal(&self) -> (r: bool)
        ensures
            r == self.is_terminal(),
    {
        self.ordinal() >= 6
    }
}

impl PartialOrd for CircuitStatus {
    fn partial_cmp(&self, other: &Self) -> (r: Option<Ordering>) {
        let a = self.ordinal();
        let b = other.ordinal();
        if a < b {
            Some(Ordering::Less)
        } else if a == b {
            Some(Ordering::Equal)
        } else {
            Some(Ordering::Greater)
        }
    }
}

impl vstd::std_specs::cmp::PartialOrdSpecImpl for CircuitStatus {
    open spec fn obeys_partial_cmp_spec() -> bool {
        true
    }

    open spec fn partial_cmp_spec(&self, other: &Self) -> Option<Ordering> {
        if self.rank() < other.rank() {
            Some(Ordering::Less)
        } else if self.rank() == other.rank() {
            Some(Ordering::Equal)
        } else {
            Some(Ordering::Greater)
        }
    }
}

/// State of the bond of one insurance deposit.
#[derive(Clone, Copy, Debug, PartialEq, Eq, Structural)]
pub enum BondStatus {
    /// No executor has bonded yet.
    Requested,
    /// An executor has bonded the insurance.
    Bonded,
    /// The bond went back to its executor.
    Unbonded,
    /// The bond went to the slashing pool.
    Slashed,
}

/// The bond that an optimistic side effect asks of its executor.
#[derive(Clone, Copy, Debug, PartialEq, Eq)]
pub struct InsuranceDeposit {
    /// Bond required of the executor.
    pub insurance: Balance,
    /// Reward promised to the executor.
    pub reward: Balance,
    /// Amount that the executor has bonded.
    pub reserved_bond: Balance,
    /// Account that asked for the side effect.
    pub requester: AccountId,
    /// Executor that bonded, once one has.
    pub bonded_relayer: Option<AccountId>,
    /// State of the bond.
    pub status: BondStatus,
    /// Block at which the side effect was admitted.
    pub requested_at: BlockNumber,
    /// Block at which the executor bonded.
    pub bonded_at: Option<BlockNumber>,
}

impl InsuranceDeposit {
    /// A deposit that no executor has bonded yet.
    pub fn new(
        insurance: Balance,
        reward: Balance,
        reserved_bond: Balance,
        requester: AccountId,
        requested_at: BlockNumber,
    ) -> (r: Self)
        ensures
            r == (InsuranceDeposit {
                insurance,
                reward,
                reserved_bond,
                requester,
                bonded_relayer: None,
                status: BondStatus::Requested,
                requested_at,
                bonded_at: None,
            }),
    {
        InsuranceDeposit {
            insurance,
            reward,
            reserved_bond,
            requester,
            bonded_relayer: None,
            status: BondStatus::Requested,
            requested_at,
            bonded_at: None,
        }
    }
}

/// The insurance deposits of one execution transaction, by side effect.
pub type Deposits = Seq<(SideEffectId, InsuranceDeposit)>;

/// Every deposit has an executor behind it.
pub open spec fn all_bonded(deposits: Deposits) -> bool {
    forall|i: int| 0 <= i < deposits.len() ==> (#[trigger] deposits[i]).1.bonded_relayer is Some
}

/// The insurance status: pending while a deposit lacks its bond, bonded after.
pub open spec fn insurance_status(deposits: Deposits) -> CircuitStatus {
    if all_bonded(deposits) {
        CircuitStatus::Bonded
    } else {
        CircuitStatus::PendingInsurance
    }
}

/// Every side effect of the step is confirmed.
pub open spec fn step_all_confirmed(step: StepView) -> bool {
    forall|j: int| 0 <= j < step.len() ==> (#[trigger] step[j]).confirmed is Some
}

/// Some side effect of the step is confirmed.
pub open spec fn step_any_confirmed(step: StepView) -> bool {
    exists|j: int| 0 <= j < step.len() && (#[trigger] step[j]).confirmed is Some
}

/// The first step at or after `from` that still waits for a confirmation, or the
/// number of steps if there is none.
pub open spec fn open_step_from(steps: StepsView, from: int) -> int
    decreases steps.len() - from,
{
    if from < 0 || from >= steps.len() {
        steps.len() as int
    } else if !step_all_confirmed(steps[from]) {
        from
    } else {
        open_step_from(steps, from + 1)
    }
}

/// The first step that still waits for a confirmation: the step cursor that the
/// confirmations alone determine.
pub open spec fn first_open_step(steps: StepsView) -> int {
    open_step_from(steps, 0)
}

/// No step holds a side effect.
pub open spec fn no_side_effects(steps: StepsView) -> bool {
    forall|s: int| 0 <= s < steps.len() ==> (#[trigger] steps[s]).len() == 0
}

/// No step after `cursor` holds a confirmation: steps are confirmed in their order.
pub open spec fn unconfirmed_after(steps: StepsView, cursor: int) -> bool {
    forall|s: int| cursor < s < steps.len() ==> !step_any_confirmed(#[trigger] steps[s])
}

/// The status of an execution transaction, derived from its steps and its
/// insurance deposits and from nothing else:
/// - without any side effect it is `Requested`;
/// - a confirmation beyond the first open step is forbidden;
/// - with every step confirmed it is `FinishedAllSteps`;
/// - with the open step partly confirmed it is `PendingExecution`;
/// - with the open step untouched, `Finished` if a step before it is done,
///   else `Ready` if every deposit is bonded, else `PendingInsurance`.
pub open spec fn xtx_status(steps: StepsView, deposits: Deposits) -> Result<CircuitStatus, Error> {
    let cursor = first_open_step(steps);
    if no_side_effects(steps) {
        Ok(CircuitStatus::Requested)
    } else if !unconfirmed_after(steps, cursor) {
        Err(Error::DeterminedForbiddenXtxStatus)
    } else if cursor == steps.len() {
        Ok(CircuitStatus::FinishedAllSteps)
    } else if step_any_confirmed(steps[cursor]) {
        Ok(CircuitStatus::PendingExecution)
    } else if cursor > 0 {
        Ok(CircuitStatus::Finished)
    } else if all_bonded(deposits) {
        Ok(CircuitStatus::Ready)
    } else {
        Ok(CircuitStatus::PendingInsurance)
    }
}

/// Tells whether every side effect of the step is confirmed.
pub fn is_step_confirmed(step: &Vec<FullSideEffect>) -> (r: bool)
    ensures
        r == step_all_confirmed(step.deep_view()),
{
    let mut j: usize = 0;
    while j < step.len()
        invariant
            j <= step.len(),
            forall|k: int| 0 <= k < j ==> (#[trigger] step.deep_view()[k]).confirmed is Some,
        decreases step.len() - j,
    {
        if step[j].confirmed.is_none() {
            assert(step.deep_view()[j as int].confirmed is None);
            return false;
        }
        assert(step.deep_view()[j as int].confirmed is Some);
        j += 1;
    }
    true
}

/// Tells whether some side effect of the step is confirmed.
pub fn is_step_touched(step: &Vec<FullSideEffect>) -> (r: bool)
    ensures
        r == step_any_confirmed(step.deep_view()),
{
    let mut j: usize = 0;
    while j < step.len()
        invariant
            j <= step.len(),
            forall|k: int| 0 <= k < j ==> (#[trigger] step.deep_view()[k]).confirmed is None,
        decreases step.len() - j,
    {
        if step[j].confirmed.is_some() {
            assert(step.deep_view()[j as int].confirmed is Some);
            return true;
        }
        assert(step.deep_view()[j as int].confirmed is None);
        j += 1;
    }
    false
}

impl CircuitStatus {
    /// The insurance status of a transaction: `PendingInsurance` while a deposit
    /// lacks its bond, `Bonded` once every deposit has one.
    pub fn determine_effects_insurance_status(
        insurance_deposits: &Vec<(SideEffectId, InsuranceDeposit)>,
    ) -> (r: CircuitStatus)
        ensures
            r == insurance_status(insurance_deposits@),
    {
        let mut i: usize = 0;
        while i < insurance_deposits.len()
            invariant
                i <= insurance_deposits.len(),
                forall|k: int|
                    0 <= k < i ==> (#[trigger] insurance_deposits@[k]).1.bonded_relayer is Some,
            decreases insurance_deposits.len() - i,
        {
            if insurance_deposits[i].1.bonded_relayer.is_none() {
                return CircuitStatus::PendingInsurance;
            }
            i += 1;
        }
        CircuitStatus::Bonded
    }

    /// The status of a transaction, derived from its steps and deposits alone.
    /// It fails, with `DeterminedForbiddenXtxStatus`, exactly when a step after
    /// the first open one holds a confirmation.
    pub fn determine_xtx_status(
        steps: &Vec<Vec<FullSideEffect>>,
        insurance_deposits: &Vec<(SideEffectId, InsuranceDeposit)>,
    ) -> (r: Result<CircuitStatus, Error>)
        ensures
            r == xtx_status(steps.deep_view(), insurance_deposits@),
    {
        let ghost sv = steps.deep_view();
        // Does any step hold a side effect?
        let mut s: usize = 0;
        let mut empty = true;
        while s < steps.len()
            invariant
                s <= steps.len(),
                sv == steps.deep_view(),
                empty == (forall|k: int| 0 <= k < s ==> (#[trigger] sv[k]).len() == 0),
            decreases steps.len() - s,
        {
            if steps[s].len() > 0 {
                assert(sv[s as int].len() > 0);
                empty = false;
            }
            s += 1;
        }
        assert(sv.len() == steps.len());
        assert(empty == no_side_effects(sv));
        if empty {
            return Ok(CircuitStatus::Requested);
        }
        // The first open step.
        let mut cursor: usize = 0;
        while cursor < steps.len() && is_step_confirmed(&steps[cursor])
            invariant
                cursor <= steps.len(),
                sv == steps.deep_view(),
                open_step_from(sv, 0) == open_step_from(sv, cursor as int),
            decreases steps.len() - cursor,
        {
            assert(sv[cursor as int] == steps@[cursor as int].deep_view());
            cursor += 1;
        }
        assert(cursor < steps.len() ==> sv[cursor as int] == steps@[cursor as int].deep_view());
        assert(first_open_step(sv) == cursor);
        // No confirmation beyond it.
        let mut t: usize = cursor;
        if t < steps.len() {
            t += 1;
        }
        while t < steps.len()
            invariant
                cursor < t <= steps.len() || (cursor == steps.len() && t == cursor),
                sv == steps.deep_view(),
                !no_side_effects(sv),
                first_open_step(sv) == cursor,
                forall|k: int| cursor < k < t ==> !step_any_confirmed(#[trigger] sv[k]),
            decreases steps.len() - t,
        {
            assert(sv[t as int] == steps@[t as int].deep_view());
            if is_step_touched(&steps[t]) {
                assert(!unconfirmed_after(sv, cursor as int));
                return Err(Error::DeterminedForbiddenXtxStatus);
            }
            t += 1;
        }
        assert(unconfirmed_after(sv, cursor as int));
        if cursor == steps.len() {
            return Ok(CircuitStatus::FinishedAllSteps);
        }
        if is_step_touched(&steps[cursor]) {
            return Ok(CircuitStatus::PendingExecution);
        }
        if cursor > 0 {
            return Ok(CircuitStatus::Finished);
        }
        match CircuitStatus::determine_effects_insurance_status(insurance_deposits) {
            CircuitStatus::Bonded => Ok(CircuitStatus::Ready),
            _ => Ok(CircuitStatus::PendingInsurance),
        }
    }
}

} // verus!
