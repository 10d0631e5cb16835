//! Execution over the asynchronous bus: an executor schedules a side effect, and
//! the bus comes back with its result.
use crate::engine::{confirm, confirmed_steps, square_up, NOT_ENCODABLE};
use crate::error::{DispatchError, Error};
use crate::events::{emit, emitted, exit_event, xbi_exit_event, Event, EventView};
use crate::identity::{blake2_256, encodable, side_effect_id};
use crate::interfaces::{Config, XBIPortal, XBIPromise, Xdns};
use crate::invariants::{lemma_apply_keeps_timing_links, timing_consistent};
use crate::pallet::{
    append_events, attached_ctx, authorize, authorized, confirmed_ctx, settlement_refusal,
    status_change_of, Pallet,
};
use crate::primitives::{
    same_hash, CircuitRole, FullSideEffect, FullSideEffectView, Origin, SideEffect, SideEffectId,
    StepView, XtxId,
};
use crate::status::{step_all_confirmed, CircuitStatus};
use crate::storage::{
    applied_ctx, applied_steps, applied_stores, applied_xtx, setup_spec, StoresView,
};
use crate::xbi::{XBICheckIn, XBICheckInView, XBICheckOut, XBIMetadata, XBIStatus};
use crate::xtx::{current_step_of, LocalXtxCtx, LocalXtxCtxView};
use vstd::prelude::*;

verus! {

/// The position of the first side effect of the step that has the identifier
/// and waits for its confirmation; the length of the step if there is none.
pub open spec fn waiting_position(step: StepView, id: SideEffectId) -> int
    decreases step.len(),
{
    if step.len() == 0 {
        0
    } else if step[0].confirmed is None && side_effect_id(step[0].input) == id {
        0
    } else {
        1 + waiting_position(step.skip(1), id)
    }
}

/// `waiting_position` finds the first side effect that has the identifier and
/// waits for its confirmation.
pub proof fn lemma_waiting_position(step: StepView, id: SideEffectId)
    ensures
        0 <= waiting_position(step, id) <= step.len(),
        waiting_position(step, id) < step.len() ==> step[waiting_position(
            step,
            id,
        )].confirmed is None && side_effect_id(step[waiting_position(step, id)].input) == id,
        forall|i: int|
            0 <= i < waiting_position(step, id) ==> !((#[trigger] step[i]).confirmed is None
                && side_effect_id(step[i].input) == id),
    decreases step.len(),
{
    if step.len() == 0 {
    } else if step[0].confirmed is None && side_effect_id(step[0].input) == id {
    } else {
        let rest = step.skip(1);
        lemma_waiting_position(rest, id);
        let p = waiting_position(rest, id);
        assert forall|i: int| 0 <= i < 1 + p implies !((#[trigger] step[i]).confirmed is None
            && side_effect_id(step[i].input) == id) by {
            if i > 0 {
                assert(rest[i - 1] == step[i]);
            }
        }
        if p < rest.len() {
            assert(rest[p] == step[p + 1]);
        }
    }
}

/// Why the exit of an order from the bus is refused before any collaborator is
/// asked; none where it is not.
pub open spec fn exit_refusal(
    s: StoresView,
    loaded: Result<LocalXtxCtxView, Error>,
    check_in: XBICheckInView,
    escrow_source: crate::primitives::AccountId,
) -> Option<Error> {
    let sfx_id = check_in.xbi.metadata.id;
    if !s.local_side_effect_to_xtx_id_links.contains_key(sfx_id) {
        Some(Error::LocalSideEffectExecutionNotApplicable)
    } else {
        match loaded {
            Err(e) => Some(e),
            Ok(ctx) => if ctx.xtx.status.is_terminal() {
                Some(Error::ApplyTriggeredWithUnexpectedStatus)
            } else if waiting_position(current_step_of(ctx), sfx_id) >= current_step_of(
                ctx,
            ).len() {
                Some(Error::LocalSideEffectExecutionNotApplicable)
            } else if check_in.xbi.metadata.maybe_known_origin is None {
                Some(Error::FailedToExitXBIPortal)
            } else if exit_event(
                escrow_source,
                check_in.xbi.metadata.maybe_known_origin->Some_0,
                check_in.xbi.instr,
            ) is None {
                Some(Error::FailedToExitXBIPortal)
            } else {
                None
            },
        }
    }
}

/// The working copy on which the exit of an order is made: that of the execution
/// to which the side effect of the order belongs.
pub open spec fn exit_ctx(
    s: StoresView,
    constants: crate::pallet::Constants,
    now: crate::primitives::BlockNumber,
    check_in: XBICheckInView,
) -> Result<LocalXtxCtxView, Error> {
    setup_spec(
        s,
        CircuitStatus::PendingExecution,
        constants.self_account_id,
        0,
        Some(s.local_side_effect_to_xtx_id_links[check_in.xbi.metadata.id]),
        now,
        constants.xtx_timeout_default,
    )
}

/// What an exit that went through leaves, where `confirmation` is what the bus
/// made of the result: the side effect of the order takes the confirmation, a
/// step that is done is settled, the working copy is updated, and the stores take
/// it, as after the confirmation of a relayer. The event of the exit comes first, then those of the transaction.
pub open spec fn exit_written(
    before: StoresView,
    after: StoresView,
    events: Seq<EventView>,
    loaded: LocalXtxCtxView,
    check_in: XBICheckInView,
    escrow_source: crate::primitives::AccountId,
    confirmation: crate::primitives::ConfirmedSideEffectView,
) -> bool {
    let sfx_id = check_in.xbi.metadata.id;
    let step = current_step_of(loaded);
    let input = step[waiting_position(step, sfx_id)].input;
    &&& confirmed_steps(loaded, input, confirmation) is Ok
    &&& status_change_of(
        attached_ctx(loaded, confirmed_steps(loaded, input, confirmation)->Ok_0),
    ) is Ok
    &&& {
        let ctx = confirmed_ctx(loaded, confirmed_steps(loaded, input, confirmation)->Ok_0);
        let change = (loaded.xtx.status, ctx.xtx.status);
        &&& after == applied_stores(before, applied_ctx(ctx, change), None, Seq::empty(), change)
        &&& events == seq![
            exit_event(
                escrow_source,
                check_in.xbi.metadata.maybe_known_origin->Some_0,
                check_in.xbi.instr,
            )->Some_0,
        ] + emitted(
            loaded.xtx_id,
            applied_xtx(applied_ctx(ctx, change), change),
            escrow_source,
            Seq::empty(),
            applied_steps(applied_ctx(ctx, change), change),
        )
    }
}

/// What an exit that went through leaves, for some confirmation of the bus.
pub open spec fn exit_outcome(
    before: StoresView,
    after: StoresView,
    events: Seq<EventView>,
    loaded: LocalXtxCtxView,
    check_in: XBICheckInView,
    escrow_source: crate::primitives::AccountId,
) -> bool {
    exists|confirmation: crate::primitives::ConfirmedSideEffectView| #[trigger]
        exit_written(before, after, events, loaded, check_in, escrow_source, confirmation)
}

/// What the continuation leaves where the bus handed out the order `check_in`:
/// the exit of that order is not refused, and it went through.
pub open spec fn resolved_with(
    before: StoresView,
    after: StoresView,
    events: Seq<EventView>,
    constants: crate::pallet::Constants,
    now: crate::primitives::BlockNumber,
    check_in: XBICheckInView,
) -> bool {
    &&& exit_refusal(
        before,
        exit_ctx(before, constants, now, check_in),
        check_in,
        constants.self_account_id,
    ) is None
    &&& exit_outcome(
        before,
        after,
        events,
        exit_ctx(before, constants, now, check_in)->Ok_0,
        check_in,
        constants.self_account_id,
    )
}

/// What the continuation leaves, for some order of the bus.
pub open spec fn resolved_outcome(
    before: StoresView,
    after: StoresView,
    events: Seq<EventView>,
    constants: crate::pallet::Constants,
    now: crate::primitives::BlockNumber,
) -> bool {
    exists|check_in: XBICheckInView| #[trigger]
        resolved_with(before, after, events, constants, now, check_in)
}

/// Why a side effect is not scheduled, from what the bus knows of it: a side
/// effect that the bus knows already is refused.
pub fn schedule_refusal(status: XBIStatus) -> (r: Option<Error>)
    ensures
        r == (if status is UnknownId {
            None::<Error>
        } else {
            Some(Error::SideEffectIsAlreadyScheduledToExecuteOverXBI)
        }),
{
    match status {
        XBIStatus::UnknownId => None,
        _ => Some(Error::SideEffectIsAlreadyScheduledToExecuteOverXBI),
    }
}

/// No settlement of an execution charge is planned for the status: a requested
/// transaction has no executor yet, and a finished one is settled only once
/// every side effect of its step is confirmed.
pub open spec fn charge_refused(status: CircuitStatus, step: StepView) -> bool {
    status is Requested || ((status is Finished || status is FinishedAllSteps)
        && !step_all_confirmed(step))
}

impl<T: Config> Pallet<T> {
    /// The side effect of the current step that has the identifier and waits for
    /// its confirmation.
    pub fn recover_fsx_by_id(sfx_id: SideEffectId, local_ctx: &LocalXtxCtx) -> (r: Result<
        FullSideEffect,
        Error,
    >)
        requires
            local_ctx.encodable(),
        ensures
            match r {
                Ok(fsx) => waiting_position(local_ctx.current_step(), sfx_id)
                    < local_ctx.current_step().len() && fsx.deep_view()
                    == local_ctx.current_step()[waiting_position(local_ctx.current_step(), sfx_id)],
                Err(e) => e == Error::LocalSideEffectExecutionNotApplicable && waiting_position(
                    local_ctx.current_step(),
                    sfx_id,
                ) >= local_ctx.current_step().len(),
            },
    {
        proof {
            lemma_waiting_position(local_ctx.current_step(), sfx_id);
        }
        if !local_ctx.has_current_step() {
            return Err(Error::LocalSideEffectExecutionNotApplicable);
        }
        let cursor = local_ctx.xtx.steps_cnt.0 as usize;
        let step = &local_ctx.full_side_effects[cursor];
        let ghost s = local_ctx.current_step();
        assert(s == step.deep_view());
        let mut i: usize = 0;
        while i < step.len()
            invariant
                i <= step.len(),
                s == step.deep_view(),
                crate::identity::step_encodable(s),
                s == local_ctx.current_step(),
                forall|k: int|
                    0 <= k < i ==> !((#[trigger] s[k]).confirmed is None && side_effect_id(
                        s[k].input,
                    ) == sfx_id),
            decreases step.len() - i,
        {
            assert(s[i as int] == step@[i as int].deep_view());
            assert(crate::identity::encodable(s[i as int].input));
            if step[i].confirmed.is_none() {
                let here = step[i].input.generate_id();
                if same_hash(&here, &sfx_id) {
                    proof {
                        lemma_waiting_position(s, sfx_id);
                    }
                    return Ok(step[i].clone());
                }
            }
            i += 1;
        }
        proof {
            lemma_waiting_position(s, sfx_id);
        }
        Err(Error::LocalSideEffectExecutionNotApplicable)
    }

    /// The working copy of the execution to which a side effect that executes
    /// locally belongs.
    pub fn recover_local_ctx_by_sfx_id(&self, sfx_id: SideEffectId) -> (r: Result<
        LocalXtxCtx,
        Error,
    >)
        requires
            self.wf(),
        ensures
            r is Ok ==> r->Ok_0.encodable(),
            match r {
                Ok(ctx) => self.stores.deep_view().local_side_effect_to_xtx_id_links.contains_key(
                    sfx_id,
                ) && setup_spec(
                    self.stores.deep_view(),
                    CircuitStatus::PendingExecution,
                    self.constants.self_account_id,
                    0,
                    Some(self.stores.deep_view().local_side_effect_to_xtx_id_links[sfx_id]),
                    self.block_number,
                    self.constants.xtx_timeout_default,
                ) == Ok::<LocalXtxCtxView, Error>(ctx.deep_view()),
                Err(e) => if self.stores.deep_view().local_side_effect_to_xtx_id_links.contains_key(
                    sfx_id,
                ) {
                    setup_spec(
                        self.stores.deep_view(),
                        CircuitStatus::PendingExecution,
                        self.constants.self_account_id,
                        0,
                        Some(self.stores.deep_view().local_side_effect_to_xtx_id_links[sfx_id]),
                        self.block_number,
                        self.constants.xtx_timeout_default,
                    ) == Err::<LocalXtxCtxView, Error>(e)
                } else {
                    e == Error::LocalSideEffectExecutionNotApplicable
                },
            },
    {
        let xtx_id = match self.stores.local_side_effect_to_xtx_id_links.get(&sfx_id) {
            Some(id) => *id,
            None => {
                return Err(Error::LocalSideEffectExecutionNotApplicable);
            },
        };
        let account = self.constants.self_account_id;
        self.setup(CircuitStatus::PendingExecution, &account, 0, Some(xtx_id))
    }

    /// Takes an order back from the bus: the side effect that it carried is
    /// found in the current step of its execution, the exit is reported by an
    /// event, the result is turned into a confirmation, and the confirmation is
    /// attached and written as that of a relayer is.
    ///
    /// The exit is refused as `exit_refusal` says; else where the bus cannot
    /// turn the result into a confirmation, where the confirmation is refused,
    /// and where the update is. On a refusal the stores stay as they are.
    pub fn do_xbi_exit(&mut self, xbi_checkin: XBICheckIn, _xbi_checkout: XBICheckOut) -> (r:
        Result<Vec<Event>, Error>)
        requires
            old(self).wf(),
        ensures
            final(self).wf(),
            final(self).same_settings(old(self)),
            final(self).stores.signal_queue@ == old(self).stores.signal_queue@,
            r is Err ==> final(self).stores.deep_view() == old(self).stores.deep_view(),
            timing_consistent(old(self).stores.deep_view()) ==> timing_consistent(
                final(self).stores.deep_view(),
            ),
            match exit_refusal(
                old(self).stores.deep_view(),
                exit_ctx(
                    old(self).stores.deep_view(),
                    old(self).constants,
                    old(self).block_number,
                    xbi_checkin.deep_view(),
                ),
                xbi_checkin.deep_view(),
                old(self).constants.self_account_id,
            ) {
                Some(e) => r == Err::<Vec<Event>, Error>(e),
                None => match r {
                    Ok(events) => exit_outcome(
                        old(self).stores.deep_view(),
                        final(self).stores.deep_view(),
                        events.deep_view(),
                        exit_ctx(
                            old(self).stores.deep_view(),
                            old(self).constants,
                            old(self).block_number,
                            xbi_checkin.deep_view(),
                        )->Ok_0,
                        xbi_checkin.deep_view(),
                        old(self).constants.self_account_id,
                    ),
                    Err(e) => {
                        ||| e == Error::FailedToConvertXBIResult2SFXConfirmation
                        ||| e == Error::XBIExitFailedOnSFXConfirmation
                        ||| e == Error::DeterminedForbiddenXtxStatus
                        ||| e == Error::UpdateXtxTriggeredWithUnexpectedStatus
                        ||| settlement_refusal(e)
                    },
                },
            },
    {
        let sfx_id = xbi_checkin.xbi.metadata.id;
        let mut local_xtx_ctx = match self.recover_local_ctx_by_sfx_id(sfx_id) {
            Ok(ctx) => ctx,
            Err(e) => {
                return Err(e);
            },
        };
        let ghost before = self.stores.deep_view();
        let ghost loaded = local_xtx_ctx.deep_view();
        let ghost order = xbi_checkin.deep_view();
        if local_xtx_ctx.xtx.status.terminal() {
            return Err(Error::ApplyTriggeredWithUnexpectedStatus);
        }
        assert(local_xtx_ctx.current_step() == current_step_of(local_xtx_ctx.deep_view()));
        let fsx = match Self::recover_fsx_by_id(sfx_id, &local_xtx_ctx) {
            Ok(fsx) => fsx,
            Err(e) => {
                return Err(e);
            },
        };
        let escrow_source = self.constants.self_account_id;
        let executor = match xbi_checkin.xbi.metadata.maybe_known_origin {
            Some(known_origin) => known_origin,
            None => {
                return Err(Error::FailedToExitXBIPortal);
            },
        };
        let xbi_exit_event = match xbi_exit_event(&escrow_source, &executor, &xbi_checkin.xbi.instr) {
            Some(event) => event,
            None => {
                return Err(Error::FailedToExitXBIPortal);
            },
        };
        let confirmation = match self.xbi_portal.xbi_result_2_sfx_confirmation(
            &xbi_checkin.xbi,
            &xbi_exit_event,
            executor,
        ) {
            Ok(confirmation) => confirmation,
            Err(_) => {
                return Err(Error::FailedToConvertXBIResult2SFXConfirmation);
            },
        };
        match confirm(
            &self.xdns,
            &self.portal,
            &self.protocol,
            &mut local_xtx_ctx,
            &escrow_source,
            &fsx.input,
            &confirmation,
        ) {
            Ok(_) => {},
            Err(_) => {
                return Err(Error::XBIExitFailedOnSFXConfirmation);
            },
        }
        match self.settle_step(&mut local_xtx_ctx) {
            Ok(_) => {},
            Err(e) => {
                return Err(e);
            },
        }
        let status_change = match local_xtx_ctx.update() {
            Ok(change) => change,
            Err(e) => {
                return Err(e);
            },
        };
        let nothing: Vec<SideEffectId> = Vec::new();
        assert(nothing@ =~= Seq::<SideEffectId>::empty());
        let (maybe_xtx_changed, maybe_steps) = self.stores.apply(
            &mut local_xtx_ctx,
            None,
            &nothing,
            status_change,
        );
        proof {
            if timing_consistent(before) {
                assert(crate::table::has_key(
                    before.active_x_exec_signals_timing_links,
                    loaded.xtx_id,
                ));
                lemma_apply_keeps_timing_links(
                    before,
                    local_xtx_ctx.deep_view(),
                    None,
                    Seq::empty(),
                    status_change,
                );
            }
        }
        let mut events: Vec<Event> = Vec::new();
        events.push(xbi_exit_event);
        assert(events.deep_view() =~= seq![
            exit_event(escrow_source, executor, order.xbi.instr)->Some_0,
        ]);
        let no_side_effects: Vec<SideEffect> = Vec::new();
        assert(no_side_effects.deep_view() =~= Seq::<crate::primitives::SideEffectView>::empty());
        let mut emitted_events = emit(
            local_xtx_ctx.xtx_id,
            maybe_xtx_changed,
            &escrow_source,
            &no_side_effects,
            maybe_steps,
        );
        append_events(&mut events, &mut emitted_events);
        proof {
            assert(exit_written(
                before,
                self.stores.deep_view(),
                events.deep_view(),
                loaded,
                order,
                escrow_source,
                confirmation.deep_view(),
            ));
        }
        Ok(events)
    }

    /// The continuation that the bus calls once the result of an order is
    /// there: the order and its result are fetched from the bus and the order is
    /// taken back. It fails where the bus has one of them no more, and where
    /// the exit does; the stores then stay as they are.
    pub fn on_xbi_sfx_resolved(&mut self, _origin: Origin, sfx_id: SideEffectId) -> (r: Result<
        Vec<Event>,
        DispatchError,
    >)
        requires
            old(self).wf(),
        ensures
            final(self).wf(),
            final(self).same_settings(old(self)),
            r is Err ==> final(self).stores.deep_view() == old(self).stores.deep_view(),
            timing_consistent(old(self).stores.deep_view()) ==> timing_consistent(
                final(self).stores.deep_view(),
            ),
            r is Ok ==> resolved_outcome(
                old(self).stores.deep_view(),
                final(self).stores.deep_view(),
                r->Ok_0.deep_view(),
                old(self).constants,
                old(self).block_number,
            ),
    {
        let check_in = match self.xbi_portal.get_check_in(sfx_id) {
            Ok(check_in) => check_in,
            Err(e) => {
                return Err(e);
            },
        };
        let check_out = match self.xbi_portal.get_check_out(sfx_id) {
            Ok(check_out) => check_out,
            Err(e) => {
                return Err(e);
            },
        };
        let ghost before = self.stores.deep_view();
        let ghost order = check_in.deep_view();
        match self.do_xbi_exit(check_in, check_out) {
            Ok(events) => {
                proof {
                    assert(resolved_with(
                        before,
                        self.stores.deep_view(),
                        events.deep_view(),
                        self.constants,
                        self.block_number,
                        order,
                    ));
                }
                Ok(events)
            },
            Err(e) => Err(DispatchError::Module(e)),
        }
    }

    /// Schedules the execution of a side effect over the bus for an executor:
    /// the order is made, the executor is charged the most that it may cost,
    /// and the bus is asked to come back with the result.
    ///
    /// Nothing is written to the stores. A side effect that is too long to be
    /// encoded is refused. Else the bus is asked first: where it knows
    /// the side effect already, the call is refused with
    /// `SideEffectIsAlreadyScheduledToExecuteOverXBI`. Else an origin that is not
    /// signed is refused with `BadOrigin`, and an execution transaction that
    /// cannot be loaded with the error of the setup. The call is refused as
    /// well where the status of the transaction plans no charge of an executor,
    /// and where a collaborator refuses.
    pub fn execute_side_effects_with_xbi(
        &mut self,
        origin: Origin,
        xtx_id: XtxId,
        side_effect: SideEffect,
        max_exec_cost: u128,
        max_notifications_cost: u128,
    ) -> (r: Result<(), DispatchError>)
        requires
            old(self).wf(),
        ensures
            final(self).wf(),
            final(self).same_settings(old(self)),
            final(self).stores.deep_view() == old(self).stores.deep_view(),
            !encodable(side_effect.deep_view()) ==> r == Err::<(), DispatchError>(
                DispatchError::Other(NOT_ENCODABLE),
            ),
            encodable(side_effect.deep_view()) ==> match authorized(origin, CircuitRole::Executor) {
                Err(_) => r == Err::<(), DispatchError>(DispatchError::BadOrigin) || r == Err::<
                    (),
                    DispatchError,
                >(DispatchError::Module(Error::SideEffectIsAlreadyScheduledToExecuteOverXBI)),
                Ok(executor) => match setup_spec(
                    old(self).stores.deep_view(),
                    CircuitStatus::PendingExecution,
                    executor,
                    0,
                    Some(xtx_id),
                    old(self).block_number,
                    old(self).constants.xtx_timeout_default,
                ) {
                    Err(e) => r == Err::<(), DispatchError>(DispatchError::Module(e)) || r == Err::<
                        (),
                        DispatchError,
                    >(DispatchError::Module(Error::SideEffectIsAlreadyScheduledToExecuteOverXBI)),
                    Ok(loaded) => charge_refused(loaded.xtx.status, current_step_of(loaded))
                        ==> r is Err,
                },
            },
            r is Ok ==> authorized(origin, CircuitRole::Executor) is Ok,
            r is Ok ==> (setup_spec(
                old(self).stores.deep_view(),
                CircuitStatus::PendingExecution,
                authorized(origin, CircuitRole::Executor)->Ok_0,
                0,
                Some(xtx_id),
                old(self).block_number,
                old(self).constants.xtx_timeout_default,
            ) matches Ok(loaded) && !charge_refused(loaded.xtx.status, current_step_of(loaded))),
    {
        if !side_effect.is_encodable() {
            return Err(DispatchError::Other(NOT_ENCODABLE));
        }
        let sfx_id = side_effect.generate_id();
        match schedule_refusal(self.xbi_portal.get_status(sfx_id)) {
            None => {},
            Some(e) => {
                return Err(DispatchError::Module(e));
            },
        }
        let executor = match authorize(origin, CircuitRole::Executor) {
            Ok(account) => account,
            Err(e) => {
                return Err(e);
            },
        };
        let mut local_xtx_ctx = match self.setup(
            CircuitStatus::PendingExecution,
            &executor,
            0,
            Some(xtx_id),
        ) {
            Ok(ctx) => ctx,
            Err(e) => {
                return Err(DispatchError::Module(e));
            },
        };
        assert(local_xtx_ctx.current_step() == current_step_of(local_xtx_ctx.deep_view()));
        let dest_para_id = match self.xdns.get_gateway_para_id(&side_effect.target) {
            Ok(id) => id,
            Err(e) => {
                return Err(e);
            },
        };
        let metadata = XBIMetadata::new_with_default_timeouts(
            sfx_id,
            dest_para_id,
            self.constants.self_para_id,
            max_exec_cost,
            max_notifications_cost,
            Some(executor),
        );
        let xbi = match self.xbi_portal.sfx_2_xbi(&side_effect, metadata) {
            Ok(xbi) => xbi,
            Err(_) => {
                return Err(DispatchError::Module(Error::FailedToConvertSFX2XBI));
            },
        };
        let encoded = self.xbi_portal.encode(&xbi);
        let charge_id = blake2_256(&encoded);
        let total_max_fees = match self.xbi_portal.total_max_costs_in_local_currency(
            &xbi.metadata,
        ) {
            Ok(fees) => fees,
            Err(e) => {
                return Err(e);
            },
        };
        let escrow_account = self.constants.self_account_id;
        match square_up(
            &mut self.account_manager,
            &mut self.escrow,
            &escrow_account,
            &mut local_xtx_ctx,
            None,
            Some((charge_id, executor, total_max_fees)),
        ) {
            Ok(_) => {},
            Err(e) => {
                return Err(DispatchError::Module(e));
            },
        }
        match self.xbi_promise.register(xbi, sfx_id) {
            Ok(_) => Ok(()),
            Err(e) => Err(e),
        }
    }
}

} // verus!
