//! The execution transaction and the working copy that a handler holds of it.
//!
//! A handler loads an execution transaction with its steps, deposits and local
//! state into a [`LocalXtxCtx`], changes that copy in memory, and hands it to the
//! stores as a whole. The changes that need no collaborator are here: the update
//! of the status and of the step cursor, and the attachment of a confirmation.
use crate::error::{Error, ALREADY_CONFIRMED, EMPTY_STEP, NOT_IN_STEP};
use crate::identity::{
    encodable, generate_xtx_id, side_effect_id, step_encodable, steps_encodable, xtx_id_of,
};
use crate::primitives::{
    AccountId, Balance, BlockNumber, ConfirmedSideEffect, ConfirmedSideEffectView,
    FullSideEffect, FullSideEffectView, LocalState, SideEffectId, StepView, StepsView, XtxId,
    H256,
};
use crate::status::{
    all_bonded, first_open_step, insurance_status, no_side_effects, open_step_from,
    step_all_confirmed, step_any_confirmed, unconfirmed_after, xtx_status, CircuitStatus,
    Deposits, InsuranceDeposit, is_step_confirmed,
};
use vstd::prelude::*;

verus! {

/// An execution transaction: the root record of a bundle of side effects.
#[derive(Debug, PartialEq, Eq)]
pub struct XExecSignal {
    /// Account that submitted the bundle.
    pub requester: AccountId,
    /// Block at which the transaction times out.
    pub timeouts_at: BlockNumber,
    /// Blocks at which its steps are delayed, if a schedule was given.
    pub delay_steps_at: Option<Vec<BlockNumber>>,
    /// Its status.
    pub status: CircuitStatus,
    /// Its step cursor and the number of its steps.
    pub steps_cnt: (u32, u32),
    /// The reward offered for the whole bundle.
    pub total_reward: Option<Balance>,
}

/// An execution transaction, under its other name.
pub type Xtx = XExecSignal;

/// Deep view of an [`XExecSignal`].
pub struct XExecSignalView {
    pub requester: AccountId,
    pub timeouts_at: BlockNumber,
    pub delay_steps_at: Option<Seq<BlockNumber>>,
    pub status: CircuitStatus,
    pub steps_cnt: (u32, u32),
    pub total_reward: Option<Balance>,
}

impl DeepView for XExecSignal {
    type V = XExecSignalView;

    open spec fn deep_view(&self) -> XExecSignalView {
        XExecSignalView {
            requester: self.requester,
            timeouts_at: self.timeouts_at,
            delay_steps_at: match self.delay_steps_at {
                Some(v) => Some(v@),
                None => None,
            },
            status: self.status,
            steps_cnt: self.steps_cnt,
            total_reward: self.total_reward,
        }
    }
}

impl Clone for XExecSignal {
    fn clone(&self) -> (r: Self)
        ensures
            r.deep_view() == self.deep_view(),
    {
        let delay_steps_at = match &self.delay_steps_at {
            Some(v) => Some(v.clone()),
            None => None,
        };
        XExecSignal {
            requester: self.requester,
            timeouts_at: self.timeouts_at,
            delay_steps_at,
            status: self.status,
            steps_cnt: self.steps_cnt,
            total_reward: self.total_reward,
        }
    }
}

/// The view of a transaction that was just requested.
pub open spec fn fresh_xtx(
    requester: AccountId,
    timeouts_at: BlockNumber,
    delay_steps_at: Option<Seq<BlockNumber>>,
    total_reward: Option<Balance>,
) -> XExecSignalView {
    XExecSignalView {
        requester,
        timeouts_at,
        delay_steps_at,
        status: CircuitStatus::Requested,
        steps_cnt: (0u32, 0u32),
        total_reward,
    }
}

impl XExecSignal {
    /// A transaction that was just requested: no steps yet, status `Requested`.
    pub fn new(
        requester: &AccountId,
        timeouts_at: BlockNumber,
        delay_steps_at: Option<Vec<BlockNumber>>,
        total_reward: Option<Balance>,
    ) -> (r: Self)
        ensures
            r.deep_view() == fresh_xtx(
                *requester,
                timeouts_at,
                match delay_steps_at {
                    Some(v) => Some(v@),
                    None => None,
                },
                total_reward,
            ),
    {
        XExecSignal {
            requester: *requester,
            timeouts_at,
            delay_steps_at,
            status: CircuitStatus::Requested,
            steps_cnt: (0, 0),
            total_reward,
        }
    }

    /// The identifier of the transaction: the hash of its requester and of the
    /// block at which it times out.
    pub fn generate_id(&self) -> (r: XtxId)
        ensures
            r == xtx_id_of(self.requester, self.timeouts_at),
    {
        generate_xtx_id(&self.requester, self.timeouts_at)
    }

    /// A transaction that was just requested, with its identifier.
    pub fn setup_fresh(
        requester: &AccountId,
        timeouts_at: BlockNumber,
        delay_steps_at: Option<Vec<BlockNumber>>,
        total_reward: Option<Balance>,
    ) -> (r: (XtxId, XExecSignal))
        ensures
            r.0 == xtx_id_of(*requester, timeouts_at),
            r.1.deep_view() == fresh_xtx(
                *requester,
                timeouts_at,
                match delay_steps_at {
                    Some(v) => Some(v@),
                    None => None,
                },
                total_reward,
            ),
    {
        let signal = XExecSignal::new(requester, timeouts_at, delay_steps_at, total_reward);
        let id = signal.generate_id();
        (id, signal)
    }
}

/// The working copy of an execution transaction that one handler holds.
#[derive(Debug, PartialEq, Eq)]
pub struct LocalXtxCtx {
    /// Bindings between the arguments of its side effects.
    pub local_state: LocalState,
    /// Its identifier.
    pub xtx_id: XtxId,
    /// The transaction itself.
    pub xtx: XExecSignal,
    /// Its insurance deposits, by side effect.
    pub insurance_deposits: Vec<(SideEffectId, InsuranceDeposit)>,
    /// Its steps.
    pub full_side_effects: Vec<Vec<FullSideEffect>>,
}

/// Deep view of a [`LocalXtxCtx`].
pub struct LocalXtxCtxView {
    pub local_state: Seq<(H256, Seq<u8>)>,
    pub xtx_id: XtxId,
    pub xtx: XExecSignalView,
    pub insurance_deposits: Deposits,
    pub full_side_effects: StepsView,
}

impl DeepView for LocalXtxCtx {
    type V = LocalXtxCtxView;

    open spec fn deep_view(&self) -> LocalXtxCtxView {
        LocalXtxCtxView {
            local_state: self.local_state.deep_view(),
            xtx_id: self.xtx_id,
            xtx: self.xtx.deep_view(),
            insurance_deposits: self.insurance_deposits@,
            full_side_effects: self.full_side_effects.deep_view(),
        }
    }
}

/// The step under the cursor exists and every side effect of it is confirmed.
pub open spec fn current_step_done(cnt: (u32, u32), steps: StepsView) -> bool {
    cnt.0 < cnt.1 && cnt.0 < steps.len() && step_all_confirmed(steps[cnt.0 as int])
}

/// The update moves the cursor: the transaction executes and its current step is done.
pub open spec fn advances(status: CircuitStatus, cnt: (u32, u32), steps: StepsView) -> bool {
    (status is Ready || status is PendingExecution || status is Finished) && current_step_done(
        cnt,
        steps,
    )
}

/// The update moves the cursor onto the number of steps: the transaction is over.
pub open spec fn finishes(status: CircuitStatus, cnt: (u32, u32), steps: StepsView) -> bool {
    advances(status, cnt, steps) && cnt.0 + 1 == cnt.1
}

/// The step counter after an update.
pub open spec fn updated_steps_cnt(status: CircuitStatus, cnt: (u32, u32), steps: StepsView) -> (
    u32,
    u32,
) {
    if status is Requested {
        if steps.len() <= u32::MAX {
            (0u32, steps.len() as u32)
        } else {
            cnt
        }
    } else if advances(status, cnt, steps) {
        ((cnt.0 + 1) as u32, cnt.1)
    } else {
        cnt
    }
}

/// The status that an update sets before it derives the status anew.
pub open spec fn interim_status(
    status: CircuitStatus,
    cnt: (u32, u32),
    steps: StepsView,
    deposits: Deposits,
) -> CircuitStatus {
    if status is PendingInsurance || status is Bonded {
        insurance_status(deposits)
    } else if finishes(status, cnt, steps) {
        CircuitStatus::FinishedAllSteps
    } else if advances(status, cnt, steps) {
        CircuitStatus::Finished
    } else {
        status
    }
}

/// The status that an update arrives at: `FinishedAllSteps` when the last step
/// is done, else the status that steps and deposits determine. A requested
/// transaction with more steps than the step counter can count is refused.
pub open spec fn updated_status(
    status: CircuitStatus,
    cnt: (u32, u32),
    steps: StepsView,
    deposits: Deposits,
) -> Result<CircuitStatus, Error> {
    if status is Requested && steps.len() > u32::MAX {
        Err(Error::UpdateXtxTriggeredWithUnexpectedStatus)
    } else if finishes(status, cnt, steps) {
        Ok(CircuitStatus::FinishedAllSteps)
    } else {
        xtx_status(steps, deposits)
    }
}

/// The working copy after an update.
pub open spec fn updated_ctx(ctx: LocalXtxCtxView) -> LocalXtxCtxView {
    let status = ctx.xtx.status;
    let cnt = ctx.xtx.steps_cnt;
    let steps = ctx.full_side_effects;
    let deposits = ctx.insurance_deposits;
    LocalXtxCtxView {
        xtx: XExecSignalView {
            status: match updated_status(status, cnt, steps, deposits) {
                Ok(s) => s,
                Err(_) => interim_status(status, cnt, steps, deposits),
            },
            steps_cnt: updated_steps_cnt(status, cnt, steps),
            ..ctx.xtx
        },
        ..ctx
    }
}

/// The step counter agrees with the steps: it counts them, and every step before
/// the cursor is done.
pub open spec fn coherent(ctx: LocalXtxCtxView) -> bool {
    &&& ctx.xtx.steps_cnt.1 == ctx.full_side_effects.len()
    &&& ctx.xtx.steps_cnt.0 <= first_open_step(ctx.full_side_effects)
}

/// The first open step lies within the steps; the steps before it are done and
/// the step itself is not.
pub proof fn lemma_open_step(steps: StepsView, from: int)
    requires
        0 <= from <= steps.len(),
    ensures
        from <= open_step_from(steps, from) <= steps.len(),
        forall|s: int|
            from <= s < open_step_from(steps, from) ==> step_all_confirmed(#[trigger] steps[s]),
        open_step_from(steps, from) < steps.len() ==> !step_all_confirmed(
            steps[open_step_from(steps, from)],
        ),
    decreases steps.len() - from,
{
    if from < steps.len() && step_all_confirmed(steps[from]) {
        lemma_open_step(steps, from + 1);
    }
}

/// The current step of a working copy; none when the cursor is past the steps.
pub open spec fn current_step_of(ctx: LocalXtxCtxView) -> StepView {
    if ctx.xtx.steps_cnt.0 < ctx.full_side_effects.len() {
        ctx.full_side_effects[ctx.xtx.steps_cnt.0 as int]
    } else {
        Seq::empty()
    }
}

impl LocalXtxCtx {
    /// The side effects of the current step; none when the cursor is past the steps.
    pub open spec fn current_step(&self) -> StepView {
        current_step_of(self.deep_view())
    }

    /// Every side effect of the working copy can be encoded.
    pub open spec fn encodable(&self) -> bool {
        steps_encodable(self.full_side_effects.deep_view())
    }

    /// Tells whether the cursor stands on a step.
    pub fn has_current_step(&self) -> (r: bool)
        ensures
            r == (self.xtx.steps_cnt.0 < self.full_side_effects.deep_view().len()),
    {
        (self.xtx.steps_cnt.0 as usize) < self.full_side_effects.len()
    }

    /// Moves the working copy to the status that its steps and deposits call for,
    /// without touching the stores, and returns the old and the new status.
    ///
    /// A requested transaction gets its step counter. A transaction that waits
    /// for insurance or executes is moved on: the cursor advances when the
    /// current step is done, and the transaction is over when the cursor
    /// reaches the number of steps. The call fails when the steps hold a
    /// confirmation out of order, and for a requested transaction with more
    /// steps than the counter can count.
    ///
    /// The new status is never one of the revert family. On a copy whose counter
    /// agrees with its steps, the cursor stays within the steps, and it reaches
    /// their number only with `FinishedAllSteps`.
    pub fn update(&mut self) -> (r: Result<(CircuitStatus, CircuitStatus), Error>)
        ensures
            final(self).deep_view() == updated_ctx(old(self).deep_view()),
            r == (match updated_status(
                old(self).xtx.status,
                old(self).xtx.steps_cnt,
                old(self).full_side_effects.deep_view(),
                old(self).insurance_deposits@,
            ) {
                Ok(s) => Ok::<(CircuitStatus, CircuitStatus), Error>((old(self).xtx.status, s)),
                Err(e) => Err::<(CircuitStatus, CircuitStatus), Error>(e),
            }),
            r is Ok ==> !r->Ok_0.1.is_revert(),
            (old(self).xtx.status is Requested || coherent(old(self).deep_view())) && r is Ok
                ==> coherent(final(self).deep_view()),
            (old(self).xtx.status is Requested || coherent(old(self).deep_view())) && r is Ok
                ==> {
                &&& final(self).xtx.steps_cnt.0 <= final(self).xtx.steps_cnt.1
                &&& (final(self).xtx.steps_cnt.0 == final(self).xtx.steps_cnt.1 && !no_side_effects(
                    final(self).full_side_effects.deep_view(),
                ) ==> final(self).xtx.status is FinishedAllSteps)
            },
    {
        let current_status = self.xtx.status;
        let ghost steps = self.full_side_effects.deep_view();
        let ghost old_view = self.deep_view();
        proof {
            lemma_open_step(steps, 0);
        }
        match current_status {
            CircuitStatus::Requested => {
                if self.full_side_effects.len() > u32::MAX as usize {
                    assert(self.deep_view() == updated_ctx(old_view));
                    return Err(Error::UpdateXtxTriggeredWithUnexpectedStatus);
                }
                self.xtx.steps_cnt = (0, self.full_side_effects.len() as u32);
            },
            CircuitStatus::PendingInsurance | CircuitStatus::Bonded => {
                self.xtx.status = CircuitStatus::determine_effects_insurance_status(
                    &self.insurance_deposits,
                );
            },
            CircuitStatus::Ready | CircuitStatus::PendingExecution | CircuitStatus::Finished => {
                let cursor = self.xtx.steps_cnt.0;
                let total = self.xtx.steps_cnt.1;
                if cursor < total && (cursor as usize) < self.full_side_effects.len() {
                    assert(steps[cursor as int] == self.full_side_effects@[cursor as int].deep_view());
                    if is_step_confirmed(&self.full_side_effects[cursor as usize]) {
                        self.xtx.steps_cnt = (cursor + 1, total);
                        self.xtx.status = CircuitStatus::Finished;
                        if cursor + 1 == total {
                            self.xtx.status = CircuitStatus::FinishedAllSteps;
                            assert(self.deep_view() == updated_ctx(old_view));
                            return Ok((current_status, CircuitStatus::FinishedAllSteps));
                        }
                    }
                }
            },
            _ => {},
        }
        match CircuitStatus::determine_xtx_status(&self.full_side_effects, &self.insurance_deposits) {
            Ok(new_status) => {
                self.xtx.status = new_status;
                assert(self.deep_view() == updated_ctx(old_view));
                Ok((current_status, new_status))
            },
            Err(e) => {
                assert(self.deep_view() == updated_ctx(old_view));
                Err(e)
            },
        }
    }
}

/// The position of the first side effect of the step with the identifier; the
/// length of the step if none has it.
pub open spec fn position_in_step(step: StepView, id: SideEffectId) -> int
    decreases step.len(),
{
    if step.len() == 0 {
        0
    } else if side_effect_id(step[0].input) == id {
        0
    } else {
        1 + position_in_step(step.skip(1), id)
    }
}

/// `position_in_step` finds the first side effect with the identifier.
pub proof fn lemma_position_in_step(step: StepView, id: SideEffectId)
    ensures
        0 <= position_in_step(step, id) <= step.len(),
        position_in_step(step, id) < step.len() ==> side_effect_id(
            step[position_in_step(step, id)].input,
        ) == id,
        forall|i: int|
            0 <= i < position_in_step(step, id) ==> side_effect_id((#[trigger] step[i]).input)
                != id,
    decreases step.len(),
{
    if step.len() == 0 {
    } else if side_effect_id(step[0].input) == id {
    } else {
        let rest = step.skip(1);
        lemma_position_in_step(rest, id);
        let p = position_in_step(rest, id);
        assert forall|i: int| 0 <= i < 1 + p implies side_effect_id((#[trigger] step[i]).input)
            != id by {
            if i > 0 {
                assert(rest[i - 1] == step[i]);
            }
        }
        if p < rest.len() {
            assert(rest[p] == step[p + 1]);
        }
    }
}

/// What the attachment of a confirmation makes of a step: the first side effect
/// with the identifier takes the confirmation, if it has none yet.
pub open spec fn confirmed_step(
    step: StepView,
    id: SideEffectId,
    confirmation: ConfirmedSideEffectView,
) -> Result<StepView, &'static str> {
    let at = position_in_step(step, id);
    if step.len() == 0 {
        Err(EMPTY_STEP)
    } else if at >= step.len() {
        Err(NOT_IN_STEP)
    } else if step[at].confirmed is Some {
        Err(ALREADY_CONFIRMED)
    } else {
        Ok(step.update(at, FullSideEffectView { confirmed: Some(confirmation), ..step[at] }))
    }
}

/// Finds in a step the first side effect with the identifier.
pub fn find_in_step(step: &Vec<FullSideEffect>, id: &SideEffectId) -> (r: usize)
    requires
        step_encodable(step.deep_view()),
    ensures
        r == position_in_step(step.deep_view(), *id),
{
    let ghost s = step.deep_view();
    proof {
        lemma_position_in_step(s, *id);
    }
    let mut i: usize = 0;
    while i < step.len()
        invariant
            i <= step.len(),
            s == step.deep_view(),
            step_encodable(s),
            forall|k: int| 0 <= k < i ==> side_effect_id((#[trigger] s[k]).input) != *id,
        decreases step.len() - i,
    {
        assert(s[i as int] == step@[i as int].deep_view());
        assert(encodable(s[i as int].input));
        let here = step[i].input.generate_id();
        if crate::primitives::same_hash(&here, id) {
            proof {
                lemma_position_in_step(s, *id);
            }
            return i;
        }
        i += 1;
    }
    proof {
        lemma_position_in_step(s, *id);
    }
    i
}

/// Attaches a confirmation to the side effect of a step that has the identifier
/// `id`, and returns a copy of that side effect.
///
/// It is refused, and the step stays as it is, when the step is empty, when it
/// holds no side effect with the identifier, and when the first one that has it
/// is confirmed already.
pub fn confirm_order(
    id: &SideEffectId,
    confirmation: &ConfirmedSideEffect,
    step_side_effects: &mut Vec<FullSideEffect>,
) -> (r: Result<FullSideEffect, &'static str>)
    requires
        step_encodable(old(step_side_effects).deep_view()),
    ensures
        step_encodable(final(step_side_effects).deep_view()),
        match confirmed_step(old(step_side_effects).deep_view(), *id, confirmation.deep_view()) {
            Ok(step) => r is Ok && final(step_side_effects).deep_view() == step
                && r->Ok_0.deep_view() == step[position_in_step(
                old(step_side_effects).deep_view(),
                *id,
            )],
            Err(e) => r == Err::<FullSideEffect, &'static str>(e)
                && final(step_side_effects).deep_view() == old(step_side_effects).deep_view(),
        },
{
    let ghost before = step_side_effects.deep_view();
    if step_side_effects.len() == 0 {
        return Err(EMPTY_STEP);
    }
    let index = find_in_step(step_side_effects, id);
    if index >= step_side_effects.len() {
        return Err(NOT_IN_STEP);
    }
    assert(before[index as int] == step_side_effects@[index as int].deep_view());
    if step_side_effects[index].confirmed.is_some() {
        return Err(ALREADY_CONFIRMED);
    }
    step_side_effects[index].confirmed = Some(confirmation.clone());
    let copy = step_side_effects[index].clone();
    proof {
        let after = step_side_effects.deep_view();
        let expected = before.update(
            index as int,
            FullSideEffectView { confirmed: Some(confirmation.deep_view()), ..before[index as int] },
        );
        assert forall|k: int| 0 <= k < after.len() implies after[k] == expected[k] by {
            assert(after[k] == step_side_effects@[k].deep_view());
            if k != index {
                assert(before[k] == old(step_side_effects)@[k].deep_view());
            }
        }
        assert(after =~= expected);
        assert forall|j: int| 0 <= j < after.len() implies encodable((#[trigger] after[j]).input) by {
            assert(encodable(before[j].input));
        }
    }
    Ok(copy)
}

/// A second confirmation of one side effect is refused: in a step that took a
/// confirmation for an identifier, the same identifier finds a confirmed side effect.
pub proof fn lemma_second_confirmation_refused(
    step: StepView,
    id: SideEffectId,
    first: ConfirmedSideEffectView,
    second: ConfirmedSideEffectView,
)
    requires
        confirmed_step(step, id, first) is Ok,
    ensures
        confirmed_step(confirmed_step(step, id, first)->Ok_0, id, second) == Err::<
            StepView,
            &'static str,
        >(ALREADY_CONFIRMED),
{
    let after = confirmed_step(step, id, first)->Ok_0;
    let at = position_in_step(step, id);
    lemma_position_in_step(step, id);
    lemma_position_in_step(after, id);
    let again = position_in_step(after, id);
    assert(side_effect_id(after[at].input) == id);
    if again < at {
        assert(after[again] == step[again]);
    }
}

/// A confirmation never lowers the status that steps and deposits determine,
/// where the side effect that takes it stands in the first open step and every
/// step after the first holds one side effect.
pub proof fn lemma_confirmation_raises_status(
    steps: StepsView,
    deposits: Deposits,
    id: SideEffectId,
    confirmation: ConfirmedSideEffectView,
)
    requires
        first_open_step(steps) < steps.len(),
        unconfirmed_after(steps, first_open_step(steps)),
        forall|s: int| 1 <= s < steps.len() ==> (#[trigger] steps[s]).len() == 1,
        confirmed_step(steps[first_open_step(steps)], id, confirmation) is Ok,
    ensures
        xtx_status(steps, deposits) is Ok,
        xtx_status(
            steps.update(
                first_open_step(steps),
                confirmed_step(steps[first_open_step(steps)], id, confirmation)->Ok_0,
            ),
            deposits,
        ) is Ok,
        xtx_status(steps, deposits)->Ok_0.rank() <= xtx_status(
            steps.update(
                first_open_step(steps),
                confirmed_step(steps[first_open_step(steps)], id, confirmation)->Ok_0,
            ),
            deposits,
        )->Ok_0.rank(),
{
    let cur = first_open_step(steps);
    let step = steps[cur];
    let at = position_in_step(step, id);
    let step2 = confirmed_step(step, id, confirmation)->Ok_0;
    let steps2 = steps.update(cur, step2);
    lemma_position_in_step(step, id);
    lemma_open_step(steps, 0);
    lemma_open_step(steps2, 0);
    lemma_open_from_agrees(steps, steps2, 0, cur);
    assert(step2[at].confirmed is Some);
    assert(step_any_confirmed(step2));
    assert(!no_side_effects(steps)) by {
        assert(steps[cur].len() > 0);
    }
    assert(!no_side_effects(steps2)) by {
        assert(steps2[cur].len() > 0);
    }
    let cur2 = first_open_step(steps2);
    assert(cur2 >= cur);
    assert forall|s: int| cur2 < s < steps2.len() implies !step_any_confirmed(
        #[trigger] steps2[s],
    ) by {
        assert(steps2[s] == steps[s]);
    }
    if cur2 == cur {
        assert(steps2[cur2] == step2);
    } else {
        // the open step is done: every later step is untouched
        assert(step_all_confirmed(steps2[cur]));
        if cur2 < steps2.len() {
            assert(steps2[cur2] == steps[cur2]);
            assert(!step_any_confirmed(steps[cur2]));
        }
    }
    if cur > 0 && cur2 == cur {
        // a step after the first holds one side effect, which is now confirmed
        assert(step.len() == 1);
        assert(at == 0);
        assert forall|j: int| 0 <= j < step2.len() implies (#[trigger] step2[j]).confirmed is Some by {
            assert(j == at);
        }
        assert(step_all_confirmed(steps2[cur]));
        assert(false);
    }
}

/// Two step vectors that agree before `upto` have the same first open step from
/// `from`, as far as it lies before `upto`.
pub proof fn lemma_open_from_agrees(a: StepsView, b: StepsView, from: int, upto: int)
    requires
        a.len() == b.len(),
        0 <= from <= upto <= a.len(),
        forall|s: int| 0 <= s < upto ==> a[s] == b[s],
        open_step_from(a, from) >= upto,
    ensures
        open_step_from(b, from) >= upto,
    decreases upto - from,
{
    if from < upto {
        assert(a[from] == b[from]);
        lemma_open_from_agrees(a, b, from + 1, upto);
    } else {
        lemma_open_step(b, from);
    }
}

/// A bond never lowers the status that steps and deposits determine: with one
/// more deposit bonded, the status is the same or a later one.
pub proof fn lemma_bond_raises_status(
    steps: StepsView,
    deposits: Deposits,
    at: int,
    bonded: InsuranceDeposit,
)
    requires
        0 <= at < deposits.len(),
        bonded.bonded_relayer is Some,
        xtx_status(steps, deposits) is Ok,
    ensures
        xtx_status(steps, deposits.update(at, (deposits[at].0, bonded))) is Ok,
        xtx_status(steps, deposits)->Ok_0.rank() <= xtx_status(
            steps,
            deposits.update(at, (deposits[at].0, bonded)),
        )->Ok_0.rank(),
{
    let after = deposits.update(at, (deposits[at].0, bonded));
    if all_bonded(deposits) {
        assert forall|i: int| 0 <= i < after.len() implies (
        #[trigger] after[i]).1.bonded_relayer is Some by {
            if i != at {
                assert(after[i] == deposits[i]);
            }
        }
    }
}

/// An update never lowers a status that steps and deposits determine: where the
/// working copy holds the status that its steps and deposits give, the update
/// keeps it, or ends the transaction with `FinishedAllSteps`; it never arrives at
/// a status of the revert family.
pub proof fn lemma_update_never_lowers_determined_status(ctx: LocalXtxCtxView)
    requires
        xtx_status(ctx.full_side_effects, ctx.insurance_deposits) == Ok::<CircuitStatus, Error>(
            ctx.xtx.status,
        ),
    ensures
        match updated_status(
            ctx.xtx.status,
            ctx.xtx.steps_cnt,
            ctx.full_side_effects,
            ctx.insurance_deposits,
        ) {
            Ok(status) => {
                &&& status == ctx.xtx.status || status is FinishedAllSteps
                &&& ctx.xtx.status.rank() <= status.rank()
                &&& !status.is_revert()
            },
            Err(_) => ctx.xtx.status is Requested,
        },
{
}

} // verus!
