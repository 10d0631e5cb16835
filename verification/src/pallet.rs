//! The Circuit itself: its settings, its stores, its collaborators, and the entry
//! points that compose the phases of the lifecycle.
use crate::engine::{
    admitted_all, admitted_deposits, confirm, confirmed_steps, local_ids_fit,
    local_side_effect_ids, plan_square_up, settle, square_up, square_up_plan, squared_deposits,
    validate, Admission,
};
use crate::error::{DispatchError, Error};
use crate::events::{emit, emitted, Event, EventView};
use crate::identity::{side_effect_id, xtx_id_of};
use crate::interfaces::Config;
use crate::invariants::{
    insurance_consistent, lemma_apply_keeps_insurance_links, lemma_apply_keeps_timing_links,
    lemma_loaded_deposits_fit, timing_consistent, write_fits_timing,
};
use crate::optimistic::{bond_request, bonded_deposit, slashed, Optimistic};
use crate::primitives::{
    AccountId, Balance, BlockNumber, CircuitRole, ConfirmedSideEffect, FullSideEffect,
    Origin, SideEffect, SideEffectId, SideEffectView, StepsView, TargetId, XtxId,
};
use crate::status::{
    all_bonded, first_open_step, no_side_effects, step_any_confirmed, unconfirmed_after,
    xtx_status, CircuitStatus, Deposits, InsuranceDeposit,
};
use crate::storage::{
    applied_ctx, applied_steps, applied_stores, applied_xtx, deposit_ids, empty_stores,
    fresh_ctx, links_of, setup_spec, Stores, StoresView,
};
use crate::validator::{lemma_layout_steps, steps_layout};
use crate::weights::RuntimeDbWeight;
use crate::xtx::{
    lemma_open_step, updated_ctx, updated_status, LocalXtxCtx, LocalXtxCtxView, XExecSignal,
    XExecSignalView,
};
use vstd::prelude::*;

verus! {

/// The settings of a Circuit.
#[derive(Clone, Copy, Debug, PartialEq, Eq)]
pub struct Constants {
    /// The account of the Circuit, which holds the escrow.
    pub self_account_id: AccountId,
    /// The gateway of the Circuit.
    pub self_gateway_id: TargetId,
    /// The parachain of the Circuit.
    pub self_para_id: u32,
    /// The number of blocks after which an execution transaction times out.
    pub xtx_timeout_default: BlockNumber,
    /// The number of blocks between two sweeps for timeouts.
    pub xtx_timeout_check_interval: BlockNumber,
    /// The most execution transactions that one sweep reverts.
    pub deletion_queue_limit: u32,
    /// The most signals that wait in the queue.
    pub signal_queue_depth: u32,
    /// What a read and a write of the database cost.
    pub db_weight: RuntimeDbWeight,
}

/// The account behind an origin, for the roles that may approach the Circuit:
/// requester, contract author, relayer and executor, each with a signed call.
pub open spec fn authorized(origin: Origin, role: CircuitRole) -> Result<AccountId, DispatchError> {
    if role is Requester || role is ContractAuthor || role is Relayer || role is Executor {
        match origin {
            Origin::Signed(account) => Ok(account),
            _ => Err(DispatchError::BadOrigin),
        }
    } else {
        Err(DispatchError::BadOrigin)
    }
}

/// Authorizes a call: returns the account that signed it, for a role that may
/// approach the Circuit, and `BadOrigin` in every other case.
pub fn authorize(origin: Origin, role: CircuitRole) -> (r: Result<AccountId, DispatchError>)
    ensures
        r == authorized(origin, role),
{
    match role {
        CircuitRole::Requester
        | CircuitRole::ContractAuthor
        | CircuitRole::Relayer
        | CircuitRole::Executor => match origin {
            Origin::Signed(account) => Ok(account),
            _ => Err(DispatchError::BadOrigin),
        },
        _ => Err(DispatchError::BadOrigin),
    }
}

/// The working copy of a bundle that was admitted: its steps are the layout of
/// the side effects as some answers of the collaborators classify them, its
/// deposits are those of the insured ones, and its transaction is fresh but for
/// the step counter and the status that steps and deposits determine.
pub open spec fn admitted_ctx(
    ctx: LocalXtxCtxView,
    requester: AccountId,
    fee: Balance,
    timeouts_at: BlockNumber,
    now: BlockNumber,
    sfx: Seq<SideEffectView>,
) -> bool {
    exists|answers: Seq<Admission>|
        {
            &&& answers.len() == sfx.len()
            &&& ctx.full_side_effects == steps_layout(#[trigger] admitted_all(sfx, answers))
            &&& ctx.insurance_deposits == admitted_deposits(sfx, answers, requester, now)
            &&& ctx.xtx_id == xtx_id_of(requester, timeouts_at)
            &&& xtx_status(ctx.full_side_effects, ctx.insurance_deposits) is Ok
            &&& ctx.xtx == (XExecSignalView {
                status: xtx_status(ctx.full_side_effects, ctx.insurance_deposits)->Ok_0,
                steps_cnt: (0u32, ctx.full_side_effects.len() as u32),
                ..fresh_ctx(requester, fee, timeouts_at).xtx
            })
        }
}

/// What the admission of a bundle leaves: the stores have taken, under a fresh
/// identifier, a working copy that is ready or waits for insurance, with the
/// local side effects linked, and the events are those of the admission.
pub open spec fn admission_outcome(
    before: StoresView,
    after: StoresView,
    events: Seq<EventView>,
    requester: AccountId,
    fee: Balance,
    timeouts_at: BlockNumber,
    now: BlockNumber,
    sfx: Seq<SideEffectView>,
    gateway: TargetId,
) -> bool {
    exists|ctx: LocalXtxCtxView, ids: Seq<SideEffectId>|
        {
            &&& admitted_ctx(ctx, requester, fee, timeouts_at, now, sfx)
            &&& ctx.xtx.status is Ready || ctx.xtx.status is PendingInsurance
            &&& local_ids_fit(ids, ctx.full_side_effects, gateway)
            &&& after == #[trigger] applied_stores(
                before,
                ctx,
                None,
                ids,
                (CircuitStatus::Requested, ctx.xtx.status),
            )
            &&& events == emitted(
                ctx.xtx_id,
                Some(ctx.xtx),
                requester,
                sfx,
                Some(ctx.full_side_effects),
            )
        }
}

/// Steps without a confirmation, not all of them empty, are `Ready` when every
/// deposit is bonded and wait for insurance when one is not.
pub proof fn lemma_untouched_status(steps: StepsView, deposits: Deposits)
    requires
        steps.len() > 0,
        forall|s: int| 0 <= s < steps.len() ==> (#[trigger] steps[s]).len() > 0,
        forall|s: int, j: int|
            0 <= s < steps.len() && 0 <= j < steps[s].len() ==> (
            #[trigger] steps[s][j]).confirmed is None,
    ensures
        xtx_status(steps, deposits) == Ok::<CircuitStatus, Error>(
            if all_bonded(deposits) {
                CircuitStatus::Ready
            } else {
                CircuitStatus::PendingInsurance
            },
        ),
{
    assert(steps[0].len() > 0);
    assert(steps[0][0].confirmed is None);
    assert(!no_side_effects(steps));
    lemma_open_step(steps, 0);
    assert(first_open_step(steps) == 0);
    assert forall|s: int| 0 < s < steps.len() implies !step_any_confirmed(#[trigger] steps[s]) by {
        if step_any_confirmed(steps[s]) {
            let j = choose|j: int| 0 <= j < steps[s].len() && (#[trigger] steps[s][j]).confirmed is Some;
            assert(steps[s][j].confirmed is None);
        }
    }
    if step_any_confirmed(steps[0]) {
        let j = choose|j: int| 0 <= j < steps[0].len() && (#[trigger] steps[0][j]).confirmed is Some;
        assert(steps[0][j].confirmed is None);
    }
}

/// A Circuit.
pub struct Pallet<T: Config> {
    /// Its settings.
    pub constants: Constants,
    /// The block that the host executes.
    pub block_number: BlockNumber,
    /// Its persistent state.
    pub stores: Stores,
    /// The name service.
    pub xdns: T::Xdns,
    /// The portal.
    pub portal: T::Portal,
    /// The account manager.
    pub account_manager: T::AccountManager,
    /// The escrow.
    pub escrow: T::Escrowed,
    /// The side effects protocol.
    pub protocol: T::Protocol,
    /// The asynchronous execution bus.
    pub xbi_portal: T::XBIPortal,
    /// The promise of the bus.
    pub xbi_promise: T::XBIPromise,
}

impl<T: Config> Pallet<T> {
    /// The stores are well formed and the signal queue is within its depth.
    pub open spec fn wf(&self) -> bool {
        &&& self.stores.wf()
        &&& self.stores.signal_queue@.len() <= self.constants.signal_queue_depth
    }

    /// The settings and the block are those of `other`.
    pub open spec fn same_settings(&self, other: &Self) -> bool {
        &&& self.constants == other.constants
        &&& self.block_number == other.block_number
    }

    /// A new execution transaction can be given its timeout at the current block.
    pub open spec fn can_time(&self) -> bool {
        self.constants.xtx_timeout_default + self.block_number <= BlockNumber::MAX
    }

    /// The block at which an execution transaction that is requested now times out.
    pub open spec fn timeout_block(&self) -> BlockNumber {
        (self.constants.xtx_timeout_default + self.block_number) as BlockNumber
    }

    /// A Circuit with empty stores, at block zero.
    pub fn new(
        constants: Constants,
        xdns: T::Xdns,
        portal: T::Portal,
        account_manager: T::AccountManager,
        escrow: T::Escrowed,
        protocol: T::Protocol,
        xbi_portal: T::XBIPortal,
        xbi_promise: T::XBIPromise,
    ) -> (r: Self)
        ensures
            r.wf(),
            r.constants == constants,
            r.block_number == 0,
            r.stores.deep_view() == empty_stores(),
    {
        Pallet {
            constants,
            block_number: 0,
            stores: Stores::new(),
            xdns,
            portal,
            account_manager,
            escrow,
            protocol,
            xbi_portal,
            xbi_promise,
        }
    }

    /// The account of the Circuit.
    pub fn account_id(&self) -> (r: AccountId)
        ensures
            r == self.constants.self_account_id,
    {
        self.constants.self_account_id
    }

    /// Phase one, at the current block and with the timeout of the settings.
    pub fn setup(
        &self,
        current_status: CircuitStatus,
        requester: &AccountId,
        reward: Balance,
        xtx_id: Option<XtxId>,
    ) -> (r: Result<LocalXtxCtx, Error>)
        requires
            self.wf(),
            current_status is Requested ==> self.can_time(),
        ensures
            r is Ok ==> r->Ok_0.encodable(),
            match setup_spec(
                self.stores.deep_view(),
                current_status,
                *requester,
                reward,
                xtx_id,
                self.block_number,
                self.constants.xtx_timeout_default,
            ) {
                Ok(ctx) => r is Ok && r->Ok_0.deep_view() == ctx,
                Err(e) => r == Err::<LocalXtxCtx, Error>(e),
            },
    {
        self.stores.setup(
            current_status,
            requester,
            reward,
            xtx_id,
            self.block_number,
            self.constants.xtx_timeout_default,
        )
    }

    /// Phase five. For a bundle that is admitted, the name service tells which of
    /// its side effects execute locally; the stores then take the working copy.
    pub fn apply(
        &mut self,
        local_ctx: &mut LocalXtxCtx,
        maybe_insurance_tuple: Option<(SideEffectId, InsuranceDeposit)>,
        status_change: (CircuitStatus, CircuitStatus),
    ) -> (r: (Option<XExecSignal>, Option<Vec<Vec<FullSideEffect>>>))
        requires
            old(self).wf(),
            old(local_ctx).encodable(),
        ensures
            final(self).wf(),
            final(local_ctx).encodable(),
            final(self).same_settings(old(self)),
            final(self).stores.signal_queue@ == old(self).stores.signal_queue@,
            final(local_ctx).deep_view() == applied_ctx(old(local_ctx).deep_view(), status_change),
            exists|ids: Seq<SideEffectId>|
                {
                    &&& status_change.0 is Requested ==> local_ids_fit(
                        ids,
                        old(local_ctx).full_side_effects.deep_view(),
                        old(self).constants.self_gateway_id,
                    )
                    &&& final(self).stores.deep_view() == #[trigger] applied_stores(
                        old(self).stores.deep_view(),
                        final(local_ctx).deep_view(),
                        maybe_insurance_tuple,
                        ids,
                        status_change,
                    )
                },
            r.0.deep_view() == applied_xtx(final(local_ctx).deep_view(), status_change),
            r.1.deep_view() == applied_steps(final(local_ctx).deep_view(), status_change),
    {
        let local_side_effects = match status_change.0 {
            CircuitStatus::Requested => local_side_effect_ids(
                &self.xdns,
                &self.constants.self_gateway_id,
                &local_ctx.full_side_effects,
            ),
            _ => Vec::new(),
        };
        self.stores.apply(local_ctx, maybe_insurance_tuple, &local_side_effects, status_change)
    }

    /// Kills an execution: the working copy takes the status `cause`, the
    /// settlement of `cause` is planned and handed to the account manager, the
    /// bonds are slashed, and the stores take the working copy under `cause`.
    ///
    /// A transaction that is over is not killed: the call is refused with
    /// `ApplyTriggeredWithUnexpectedStatus`, and nothing changes. Else, with a
    /// cause of the revert family the kill cannot fail; with any other cause it
    /// fails where the plan is refused or the account manager refuses it. A kill
    /// that fails has asked nothing of the escrow: no bond is slashed, the
    /// deposits of the working copy are as they were, and the stores stay as
    /// they are.
    pub fn kill(&mut self, local_ctx: &mut LocalXtxCtx, cause: CircuitStatus) -> (r: Result<
        (),
        Error,
    >)
        requires
            old(self).wf(),
            old(local_ctx).encodable(),
        ensures
            final(self).wf(),
            final(local_ctx).encodable(),
            final(self).same_settings(old(self)),
            final(self).stores.signal_queue@ == old(self).stores.signal_queue@,
            old(local_ctx).xtx.status.is_terminal() ==> r == Err::<(), Error>(
                Error::ApplyTriggeredWithUnexpectedStatus,
            ) && final(local_ctx).deep_view() == old(local_ctx).deep_view(),
            !old(local_ctx).xtx.status.is_terminal() && cause.is_revert() ==> r is Ok,
            !old(local_ctx).xtx.status.is_terminal() ==> (square_up_plan(
                cause,
                old(local_ctx).current_step(),
                None,
                None,
            ) matches Err(e) ==> r == Err::<(), Error>(e)),
            !old(local_ctx).xtx.status.is_terminal() ==> final(local_ctx).deep_view() == (
            if r is Ok {
                killed_ctx(old(local_ctx).deep_view(), cause)
            } else {
                LocalXtxCtxView {
                    xtx: XExecSignalView { status: cause, ..old(local_ctx).xtx.deep_view() },
                    ..old(local_ctx).deep_view()
                }
            }),
            r is Err ==> final(local_ctx).insurance_deposits@ == old(local_ctx).insurance_deposits@,
            r is Err ==> final(self).stores.deep_view() == old(self).stores.deep_view(),
            r is Ok ==> final(self).stores.deep_view() == applied_stores(
                old(self).stores.deep_view(),
                killed_ctx(old(local_ctx).deep_view(), cause),
                None,
                Seq::empty(),
                (cause, cause),
            ),
    {
        if local_ctx.xtx.status.terminal() {
            return Err(Error::ApplyTriggeredWithUnexpectedStatus);
        }
        local_ctx.xtx.status = cause;
        let plan = match plan_square_up(local_ctx, None, None) {
            Ok(plan) => plan,
            Err(e) => {
                return Err(e);
            },
        };
        match settle(&mut self.account_manager, &plan) {
            Ok(_) => {},
            Err(e) => {
                return Err(e);
            },
        }
        let escrow_account = self.constants.self_account_id;
        Optimistic::try_slash(&mut self.escrow, &escrow_account, &mut local_ctx.insurance_deposits);
        let nothing: Vec<SideEffectId> = Vec::new();
        let _ = self.stores.apply(local_ctx, None, &nothing, (cause, cause));
        assert(nothing@ =~= Seq::<SideEffectId>::empty());
        Ok(())
    }
}


/// The working copy after a kill that went through: its status is the cause, and
/// its deposits are slashed.
pub open spec fn killed_ctx(ctx: LocalXtxCtxView, cause: CircuitStatus) -> LocalXtxCtxView {
    LocalXtxCtxView {
        xtx: XExecSignalView { status: cause, ..ctx.xtx },
        insurance_deposits: slashed(ctx.insurance_deposits),
        ..ctx
    }
}

/// The deposit of a side effect once `executor` has bonded it at block `now`;
/// the deposit of a side effect without one is arbitrary.
pub open spec fn bonded_entry(
    ctx: LocalXtxCtxView,
    sfx_id: SideEffectId,
    executor: AccountId,
    now: BlockNumber,
) -> InsuranceDeposit {
    let at = crate::optimistic::deposit_position(ctx.insurance_deposits, sfx_id);
    if 0 <= at < ctx.insurance_deposits.len() {
        bonded_deposit(ctx.insurance_deposits[at].1, executor, now)
    } else {
        arbitrary()
    }
}

/// The working copy of a transaction with the first deposit of a side effect
/// replaced.
pub open spec fn bonding_ctx(
    ctx: LocalXtxCtxView,
    sfx_id: SideEffectId,
    bonded: InsuranceDeposit,
) -> LocalXtxCtxView {
    let at = crate::optimistic::deposit_position(ctx.insurance_deposits, sfx_id);
    if 0 <= at < ctx.insurance_deposits.len() {
        LocalXtxCtxView {
            insurance_deposits: ctx.insurance_deposits.update(at, (sfx_id, bonded)),
            ..ctx
        }
    } else {
        ctx
    }
}

/// The change of status that an update of the working copy reports.
pub open spec fn status_change_of(ctx: LocalXtxCtxView) -> Result<
    (CircuitStatus, CircuitStatus),
    Error,
> {
    match updated_status(
        ctx.xtx.status,
        ctx.xtx.steps_cnt,
        ctx.full_side_effects,
        ctx.insurance_deposits,
    ) {
        Ok(s) => Ok((ctx.xtx.status, s)),
        Err(e) => Err(e),
    }
}

/// The working copy after a settlement that went through: the deposits are
/// those of `squared_deposits`.
pub open spec fn squared_ctx(ctx: LocalXtxCtxView) -> LocalXtxCtxView {
    LocalXtxCtxView {
        insurance_deposits: squared_deposits(
            ctx.xtx.status,
            ctx.insurance_deposits,
            crate::xtx::current_step_of(ctx),
        ),
        ..ctx
    }
}

impl<T: Config> Pallet<T> {
    /// The phases that follow the validation of a bundle: the charges of the
    /// requester are settled, the working copy is updated, the stores take it,
    /// and the events are made.
    ///
    /// On a refusal the stores stay as they are. The refusal is that of the
    /// settlement plan, where the plan is refused; else that of the account
    /// manager or the escrow, or that of the update.
    pub fn finish_admission(
        &mut self,
        local_xtx_ctx: &mut LocalXtxCtx,
        requester: &AccountId,
        side_effects: &Vec<SideEffect>,
    ) -> (r: Result<Vec<Event>, Error>)
        requires
            old(self).wf(),
            old(local_xtx_ctx).encodable(),
            crate::identity::bundle_encodable(side_effects.deep_view()),
        ensures
            final(self).wf(),
            final(self).same_settings(old(self)),
            final(self).stores.signal_queue@ == old(self).stores.signal_queue@,
            r is Err ==> final(self).stores.deep_view() == old(self).stores.deep_view(),
            match square_up_plan(
                old(local_xtx_ctx).xtx.status,
                old(local_xtx_ctx).current_step(),
                Some(*requester),
                None,
            ) {
                Err(e) => r == Err::<Vec<Event>, Error>(e),
                Ok(_) => {
                    let squared = squared_ctx(old(local_xtx_ctx).deep_view());
                    match r {
                        Err(e) => (status_change_of(squared) matches Err(refusal) && e == refusal)
                            || (if old(local_xtx_ctx).xtx.status is Finished || old(local_xtx_ctx).xtx.status is FinishedAllSteps {
                            ||| e == Error::FinalizeSquareUpFailed
                            ||| e == Error::RefundTransferFailed
                            ||| e == Error::RewardTransferFailed
                        } else {
                            e == Error::ChargingTransferFailed
                        }),
                        Ok(events) => {
                            &&& status_change_of(squared) is Ok
                            &&& final(local_xtx_ctx).deep_view() == applied_ctx(
                                updated_ctx(squared),
                                status_change_of(squared)->Ok_0,
                            )
                            &&& exists|ids: Seq<SideEffectId>|
                                {
                                    &&& old(local_xtx_ctx).xtx.status is Requested
                                        ==> local_ids_fit(
                                        ids,
                                        old(local_xtx_ctx).full_side_effects.deep_view(),
                                        old(self).constants.self_gateway_id,
                                    )
                                    &&& final(self).stores.deep_view() == #[trigger] applied_stores(
                                        old(self).stores.deep_view(),
                                        final(local_xtx_ctx).deep_view(),
                                        None,
                                        ids,
                                        status_change_of(squared)->Ok_0,
                                    )
                                }
                            &&& events.deep_view() == emitted(
                                old(local_xtx_ctx).xtx_id,
                                Some(final(local_xtx_ctx).xtx.deep_view()),
                                *requester,
                                side_effects.deep_view(),
                                applied_steps(
                                    final(local_xtx_ctx).deep_view(),
                                    status_change_of(squared)->Ok_0,
                                ),
                            )
                        },
                    }
                },
            },
    {
        let escrow_account = self.constants.self_account_id;
        match square_up(
            &mut self.account_manager,
            &mut self.escrow,
            &escrow_account,
            local_xtx_ctx,
            Some(*requester),
            None,
        ) {
            Ok(_) => {},
            Err(e) => {
                return Err(e);
            },
        }
        let status_change = match local_xtx_ctx.update() {
            Ok(change) => change,
            Err(e) => {
                return Err(e);
            },
        };
        let (_, added_full_side_effects) = self.apply(local_xtx_ctx, None, status_change);
        let events = emit(
            local_xtx_ctx.xtx_id,
            Some(local_xtx_ctx.xtx.clone()),
            requester,
            side_effects,
            added_full_side_effects,
        );
        Ok(events)
    }

    /// Admits a bundle of side effects for a requester under a fresh identifier.
    ///
    /// The bundle is validated, the charges of the requester are settled, the
    /// working copy is updated, the stores take it, and the events are made. A
    /// refusal of the validation comes back with its reason; on any refusal the
    /// stores stay as they are.
    pub fn admit_bundle(
        &mut self,
        requester: &AccountId,
        fee: Balance,
        side_effects: &Vec<SideEffect>,
        sequential: bool,
    ) -> (r: Result<Vec<Event>, DispatchError>)
        requires
            old(self).wf(),
            old(self).can_time(),
        ensures
            final(self).wf(),
            final(self).same_settings(old(self)),
            final(self).stores.signal_queue@ == old(self).stores.signal_queue@,
            side_effects@.len() == 0 ==> r == Err::<Vec<Event>, DispatchError>(
                DispatchError::Other(crate::error::NO_SIDE_EFFECTS),
            ),
            r is Err ==> final(self).stores.deep_view() == old(self).stores.deep_view(),
            r is Err ==> r->Err_0 is Other || r->Err_0 == DispatchError::Module(
                Error::ChargingTransferFailed,
            ) || r->Err_0 == DispatchError::Module(Error::UpdateXtxTriggeredWithUnexpectedStatus),
            r is Ok ==> admission_outcome(
                old(self).stores.deep_view(),
                final(self).stores.deep_view(),
                r->Ok_0.deep_view(),
                *requester,
                fee,
                old(self).timeout_block(),
                old(self).block_number,
                side_effects.deep_view(),
                old(self).constants.self_gateway_id,
            ),
            r is Ok && timing_consistent(old(self).stores.deep_view()) ==> timing_consistent(
                final(self).stores.deep_view(),
            ),
            r is Ok && insurance_consistent(old(self).stores.deep_view()) && (forall|
                sfx: SideEffectId,
            |
                !(#[trigger] old(self).stores.deep_view().insurance_deposits.contains_key(
                    (xtx_id_of(*requester, old(self).timeout_block()), sfx),
                ))) ==> insurance_consistent(final(self).stores.deep_view()),
    {
        let mut local_xtx_ctx = match self.setup(CircuitStatus::Requested, requester, fee, None) {
            Ok(ctx) => ctx,
            Err(e) => {
                return Err(DispatchError::Module(e));
            },
        };
        match validate(
            &self.xdns,
            &self.portal,
            &mut self.protocol,
            self.block_number,
            side_effects,
            &mut local_xtx_ctx,
            requester,
            sequential,
        ) {
            Ok(_) => {},
            Err(e) => {
                return Err(DispatchError::Other(e));
            },
        }
        let ghost sfx = side_effects.deep_view();
        let ghost answers = choose|answers: Seq<Admission>|
            {
                &&& answers.len() == sfx.len()
                &&& local_xtx_ctx.full_side_effects.deep_view() == steps_layout(
                    #[trigger] admitted_all(sfx, answers),
                )
                &&& local_xtx_ctx.insurance_deposits@ == Seq::<
                    (SideEffectId, InsuranceDeposit),
                >::empty() + admitted_deposits(sfx, answers, *requester, self.block_number)
            };
        let ghost steps = local_xtx_ctx.full_side_effects.deep_view();
        proof {
            let flat = admitted_all(sfx, answers);
            lemma_layout_steps(flat);
            assert(local_xtx_ctx.insurance_deposits@ =~= admitted_deposits(
                sfx,
                answers,
                *requester,
                self.block_number,
            ));
            assert forall|s: int, j: int|
                0 <= s < steps.len() && 0 <= j < steps[s].len() implies (
            #[trigger] steps[s][j]).confirmed is None by {
                assert(flat.contains(steps[s][j]));
                let i = choose|i: int| 0 <= i < flat.len() && flat[i] == steps[s][j];
                assert(flat[i].confirmed is None);
            }
            assert(steps.len() > 0) by {
                assert(flat.len() > 0);
            }
            lemma_untouched_status(steps, local_xtx_ctx.insurance_deposits@);
        }
        let ghost before = self.stores.deep_view();
        let ghost validated = local_xtx_ctx.deep_view();
        let events = match self.finish_admission(&mut local_xtx_ctx, requester, side_effects) {
            Ok(events) => events,
            Err(e) => {
                return Err(DispatchError::Module(e));
            },
        };
        let ghost ctx = local_xtx_ctx.deep_view();
        proof {
            let status_change = status_change_of(validated)->Ok_0;
            assert(admitted_ctx(
                ctx,
                *requester,
                fee,
                old(self).timeout_block(),
                old(self).block_number,
                sfx,
            ));
            let ids = choose|ids: Seq<SideEffectId>|
                {
                    &&& local_ids_fit(ids, steps, self.constants.self_gateway_id)
                    &&& self.stores.deep_view() == #[trigger] applied_stores(
                        before,
                        ctx,
                        None,
                        ids,
                        status_change,
                    )
                };
            if timing_consistent(before) {
                lemma_apply_keeps_timing_links(before, ctx, None, ids, status_change);
            }
            if insurance_consistent(before) && (forall|sfx: SideEffectId|
                !(#[trigger] before.insurance_deposits.contains_key((ctx.xtx_id, sfx)))) {
                lemma_apply_keeps_insurance_links(before, ctx, None, ids, status_change);
            }
            assert(admission_outcome(
                before,
                self.stores.deep_view(),
                events.deep_view(),
                *requester,
                fee,
                old(self).timeout_block(),
                old(self).block_number,
                sfx,
                self.constants.self_gateway_id,
            ));
        }
        Ok(events)
    }

    /// Admits a bundle of side effects for a requester.
    ///
    /// The call is refused, and the stores stay as they are, for an origin that
    /// is not signed, for a bundle that the validation refuses (among them the
    /// bundle without side effects), and where the account manager refuses the
    /// charge of a prize. Else the bundle is written under a fresh identifier,
    /// ready for execution or waiting for insurance, and its events are returned.
    pub fn on_extrinsic_trigger(
        &mut self,
        origin: Origin,
        side_effects: Vec<SideEffect>,
        fee: Balance,
        sequential: bool,
    ) -> (r: Result<Vec<Event>, DispatchError>)
        requires
            old(self).wf(),
            old(self).can_time(),
        ensures
            final(self).wf(),
            final(self).same_settings(old(self)),
            final(self).stores.signal_queue@ == old(self).stores.signal_queue@,
            authorized(origin, CircuitRole::Requester) is Err ==> r == Err::<
                Vec<Event>,
                DispatchError,
            >(DispatchError::BadOrigin),
            authorized(origin, CircuitRole::Requester) is Ok && side_effects@.len() == 0 ==> r
                == Err::<Vec<Event>, DispatchError>(
                DispatchError::Module(Error::SideEffectsValidationFailed),
            ),
            r is Err ==> final(self).stores.deep_view() == old(self).stores.deep_view(),
            r is Err && authorized(origin, CircuitRole::Requester) is Ok ==> r->Err_0
                == DispatchError::Module(Error::SideEffectsValidationFailed) || r->Err_0
                == DispatchError::Module(Error::ChargingTransferFailed) || r->Err_0
                == DispatchError::Module(Error::UpdateXtxTriggeredWithUnexpectedStatus),
            r is Ok ==> admission_outcome(
                old(self).stores.deep_view(),
                final(self).stores.deep_view(),
                r->Ok_0.deep_view(),
                authorized(origin, CircuitRole::Requester)->Ok_0,
                fee,
                old(self).timeout_block(),
                old(self).block_number,
                side_effects.deep_view(),
                old(self).constants.self_gateway_id,
            ),
            r is Ok && timing_consistent(old(self).stores.deep_view()) ==> timing_consistent(
                final(self).stores.deep_view(),
            ),
            r is Ok && insurance_consistent(old(self).stores.deep_view()) && (forall|
                sfx: SideEffectId,
            |
                !(#[trigger] old(self).stores.deep_view().insurance_deposits.contains_key(
                    (
                        xtx_id_of(
                            authorized(origin, CircuitRole::Requester)->Ok_0,
                            old(self).timeout_block(),
                        ),
                        sfx,
                    ),
                ))) ==> insurance_consistent(final(self).stores.deep_view()),
    {
        let requester = match authorize(origin, CircuitRole::Requester) {
            Ok(account) => account,
            Err(e) => {
                return Err(e);
            },
        };
        match self.admit_bundle(&requester, fee, &side_effects, sequential) {
            Ok(events) => Ok(events),
            Err(DispatchError::Other(_)) => Err(
                DispatchError::Module(Error::SideEffectsValidationFailed),
            ),
            Err(e) => Err(e),
        }
    }

    /// Bonds the insurance of a side effect for an executor.
    ///
    /// The call is refused, and the stores stay as they are: for an origin that
    /// is not signed; where the execution transaction cannot be loaded; where
    /// the side effect has no deposit or its deposit is bonded; and where the
    /// escrow refuses the bond. Else the deposit is written with its bond, the
    /// transaction with its new status, and the events are returned.
    ///
    /// A transaction that is over takes no bond. The deposits stay with their
    /// links, and the timing links stay consistent.
    pub fn bond_insurance_deposit(
        &mut self,
        origin: Origin,
        xtx_id: XtxId,
        side_effect_id: SideEffectId,
    ) -> (r: Result<Vec<Event>, DispatchError>)
        requires
            old(self).wf(),
        ensures
            final(self).wf(),
            final(self).same_settings(old(self)),
            final(self).stores.signal_queue@ == old(self).stores.signal_queue@,
            r is Err ==> final(self).stores.deep_view() == old(self).stores.deep_view(),
            insurance_consistent(old(self).stores.deep_view()) ==> insurance_consistent(
                final(self).stores.deep_view(),
            ),
            timing_consistent(old(self).stores.deep_view()) ==> timing_consistent(
                final(self).stores.deep_view(),
            ),
            match authorized(origin, CircuitRole::Executor) {
                Err(_) => r == Err::<Vec<Event>, DispatchError>(DispatchError::BadOrigin),
                Ok(executor) => match setup_spec(
                    old(self).stores.deep_view(),
                    CircuitStatus::PendingInsurance,
                    executor,
                    0,
                    Some(xtx_id),
                    old(self).block_number,
                    old(self).constants.xtx_timeout_default,
                ) {
                    Err(e) => r == Err::<Vec<Event>, DispatchError>(DispatchError::Module(e)),
                    Ok(loaded) => if loaded.xtx.status.is_terminal() {
                        r == Err::<Vec<Event>, DispatchError>(
                            DispatchError::Module(Error::ApplyTriggeredWithUnexpectedStatus),
                        )
                    } else {
                        match bond_request(loaded.insurance_deposits, side_effect_id) {
                        Err(e) => r == Err::<Vec<Event>, DispatchError>(DispatchError::Module(e)),
                        Ok(_) => {
                            let bonded = bonded_entry(
                                loaded,
                                side_effect_id,
                                executor,
                                old(self).block_number,
                            );
                            let ctx = updated_ctx(bonding_ctx(loaded, side_effect_id, bonded));
                            match r {
                                Err(e) => e == DispatchError::Module(Error::InsuranceBondTooLow)
                                    || (status_change_of(
                                    bonding_ctx(loaded, side_effect_id, bonded),
                                ) matches Err(refusal) && e == DispatchError::Module(refusal)),
                                Ok(events) => {
                                    let change = (loaded.xtx.status, ctx.xtx.status);
                                    &&& final(self).stores.deep_view() == applied_stores(
                                        old(self).stores.deep_view(),
                                        applied_ctx(ctx, change),
                                        Some((side_effect_id, bonded)),
                                        Seq::empty(),
                                        change,
                                    )
                                    &&& events.deep_view() == seq![
                                        EventView::SideEffectInsuranceReceived(
                                            side_effect_id,
                                            executor,
                                        ),
                                    ] + emitted(
                                        xtx_id,
                                        applied_xtx(applied_ctx(ctx, change), change),
                                        executor,
                                        Seq::empty(),
                                        None,
                                    )
                                },
                            }
                        },
                        }
                    },
                },
            },
    {
        let executor = match authorize(origin, CircuitRole::Executor) {
            Ok(account) => account,
            Err(e) => {
                return Err(e);
            },
        };
        let mut local_xtx_ctx = match self.setup(
            CircuitStatus::PendingInsurance,
            &executor,
            0,
            Some(xtx_id),
        ) {
            Ok(ctx) => ctx,
            Err(e) => {
                return Err(DispatchError::Module(e));
            },
        };
        let ghost loaded = local_xtx_ctx.deep_view();
        if local_xtx_ctx.xtx.status.terminal() {
            return Err(DispatchError::Module(Error::ApplyTriggeredWithUnexpectedStatus));
        }
        proof {
            crate::optimistic::lemma_deposit_position(loaded.insurance_deposits, side_effect_id);
        }
        let escrow_account = self.constants.self_account_id;
        let insurance_deposit_copy = match Optimistic::bond_4_sfx(
            &mut self.escrow,
            &escrow_account,
            self.block_number,
            &executor,
            &mut local_xtx_ctx.insurance_deposits,
            side_effect_id,
        ) {
            Ok(deposit) => deposit,
            Err(e) => {
                return Err(DispatchError::Module(e));
            },
        };
        let status_change = match local_xtx_ctx.update() {
            Ok(change) => change,
            Err(e) => {
                return Err(DispatchError::Module(e));
            },
        };
        let ghost before = self.stores.deep_view();
        let ghost ctx = local_xtx_ctx.deep_view();
        let nothing: Vec<SideEffectId> = Vec::new();
        assert(nothing@ =~= Seq::<SideEffectId>::empty());
        let (maybe_xtx_changed, _) = self.stores.apply(
            &mut local_xtx_ctx,
            Some((side_effect_id, insurance_deposit_copy)),
            &nothing,
            status_change,
        );
        proof {
            if timing_consistent(before) {
                assert(crate::table::has_key(before.active_x_exec_signals_timing_links, xtx_id));
                lemma_apply_keeps_timing_links(
                    before,
                    local_xtx_ctx.deep_view(),
                    Some((side_effect_id, insurance_deposit_copy)),
                    Seq::empty(),
                    status_change,
                );
            }
            if insurance_consistent(before) {
                assert(deposit_ids(loaded.insurance_deposits) =~= links_of(before, xtx_id));
                assert(deposit_ids(ctx.insurance_deposits) =~= deposit_ids(
                    loaded.insurance_deposits,
                ));
                lemma_loaded_deposits_fit(before, xtx_id, ctx.insurance_deposits);
                let at = crate::optimistic::deposit_position(
                    loaded.insurance_deposits,
                    side_effect_id,
                );
                assert(loaded.insurance_deposits[at].0 == side_effect_id);
                assert(deposit_ids(loaded.insurance_deposits)[at] == side_effect_id);
                lemma_apply_keeps_insurance_links(
                    before,
                    local_xtx_ctx.deep_view(),
                    Some((side_effect_id, insurance_deposit_copy)),
                    Seq::empty(),
                    status_change,
                );
            }
        }
        let mut events: Vec<Event> = Vec::new();
        events.push(Event::SideEffectInsuranceReceived(side_effect_id, executor));
        let ghost head = events.deep_view();
        assert(head =~= seq![EventView::SideEffectInsuranceReceived(side_effect_id, executor)]);
        let no_side_effects: Vec<SideEffect> = Vec::new();
        assert(no_side_effects.deep_view() =~= Seq::<SideEffectView>::empty());
        let mut emitted_events = emit(
            local_xtx_ctx.xtx_id,
            maybe_xtx_changed,
            &executor,
            &no_side_effects,
            None,
        );
        append_events(&mut events, &mut emitted_events);
        Ok(events)
    }
}

/// Moves the events of `tail` to the end of `events`.
pub fn append_events(events: &mut Vec<Event>, tail: &mut Vec<Event>)
    ensures
        final(events).deep_view() == old(events).deep_view() + old(tail).deep_view(),
        final(tail)@.len() == 0,
{
    let ghost head = events.deep_view();
    let ghost rest = tail.deep_view();
    let ghost n = tail@.len();
    while tail.len() > 0
        invariant
            tail@.len() <= n,
            n == rest.len(),
            tail.deep_view() == rest.skip(n - tail@.len()),
            events.deep_view() == head + rest.take(n - tail@.len()),
        decreases tail@.len(),
    {
        let ghost k = n - tail@.len();
        let ghost events_before = events.deep_view();
        let ghost tail_before = tail.deep_view();
        let event = tail.remove(0);
        assert(event.deep_view() == tail_before[0]);
        assert(tail.deep_view() =~= tail_before.skip(1));
        assert(tail.deep_view() =~= rest.skip(k + 1));
        events.push(event);
        assert(events.deep_view() =~= events_before.push(rest[k]));
        assert(events.deep_view() =~= head + rest.take(k + 1));
    }
    assert(rest.take(n as int) =~= rest);
}


/// The working copy after the settlement of a step that is done: where every side
/// effect of the current step is confirmed, the bonds of the step went back.
pub open spec fn settled_step_ctx(ctx: LocalXtxCtxView) -> LocalXtxCtxView {
    if crate::xtx::current_step_done(ctx.xtx.steps_cnt, ctx.full_side_effects) {
        LocalXtxCtxView {
            insurance_deposits: crate::optimistic::unbonded(
                ctx.insurance_deposits,
                crate::xtx::current_step_of(ctx),
            ),
            ..ctx
        }
    } else {
        ctx
    }
}

/// The working copy of a transaction after a confirmation was attached to a side
/// effect of its current step and the step was settled, if it is done.
pub open spec fn attached_ctx(loaded: LocalXtxCtxView, steps: StepsView) -> LocalXtxCtxView {
    settled_step_ctx(LocalXtxCtxView { full_side_effects: steps, ..loaded })
}

/// The working copy of a transaction after a confirmation was attached, the
/// step was settled and the status was updated.
pub open spec fn confirmed_ctx(loaded: LocalXtxCtxView, steps: StepsView) -> LocalXtxCtxView {
    updated_ctx(attached_ctx(loaded, steps))
}

/// The error is one of those with which the settlement of a finished step fails.
pub open spec fn settlement_refusal(e: Error) -> bool {
    ||| e == Error::FinalizeSquareUpFailed
    ||| e == Error::RefundTransferFailed
    ||| e == Error::RewardTransferFailed
}

/// The position of the first timing link that has run out at block `now`: its
/// block is `now` or an earlier one. The number of links if none has run out.
pub open spec fn first_timed_out(links: Seq<(XtxId, BlockNumber)>, now: BlockNumber) -> int
    decreases links.len(),
{
    if links.len() == 0 {
        0
    } else if links[0].1 <= now {
        0
    } else {
        1 + first_timed_out(links.skip(1), now)
    }
}

/// `first_timed_out` finds the first link that has run out.
pub proof fn lemma_first_timed_out(links: Seq<(XtxId, BlockNumber)>, now: BlockNumber)
    ensures
        0 <= first_timed_out(links, now) <= links.len(),
        first_timed_out(links, now) < links.len() ==> links[first_timed_out(links, now)].1 <= now,
        forall|i: int| 0 <= i < first_timed_out(links, now) ==> (#[trigger] links[i]).1 > now,
    decreases links.len(),
{
    if links.len() == 0 {
    } else if links[0].1 <= now {
    } else {
        let rest = links.skip(1);
        lemma_first_timed_out(rest, now);
        let p = first_timed_out(rest, now);
        assert forall|i: int| 0 <= i < 1 + p implies (#[trigger] links[i]).1 > now by {
            if i > 0 {
                assert(rest[i - 1] == links[i]);
            }
        }
        if p < rest.len() {
            assert(rest[p] == links[p + 1]);
        }
    }
}

/// The working copy of a transaction that is reverted after its timeout: its
/// status is `RevertTimedOut` and its bonds are slashed.
pub open spec fn timed_out_ctx(loaded: LocalXtxCtxView) -> LocalXtxCtxView {
    killed_ctx(loaded, CircuitStatus::RevertTimedOut)
}

/// The transaction that a sweep at block `now` reverts: the first whose timing
/// link has run out, if the sweep may revert any, the transaction loads, and it
/// is not over yet.
pub open spec fn sweep_target(s: StoresView, constants: Constants, now: BlockNumber) -> Option<
    LocalXtxCtxView,
> {
    let links = s.active_x_exec_signals_timing_links;
    let at = first_timed_out(links, now);
    if constants.deletion_queue_limit == 0 || at >= links.len() {
        None
    } else {
        match setup_spec(
            s,
            CircuitStatus::RevertTimedOut,
            constants.self_account_id,
            0,
            Some(links[at].0),
            now,
            constants.xtx_timeout_default,
        ) {
            Ok(loaded) => if loaded.xtx.status.is_terminal() {
                None
            } else {
                Some(timed_out_ctx(loaded))
            },
            Err(_) => None,
        }
    }
}

/// The events of a sweep at block `now`: the revert of the transaction that the
/// sweep reverts, if it reverts one.
pub open spec fn sweep_events(s: StoresView, constants: Constants, now: BlockNumber) -> Seq<
    EventView,
> {
    match sweep_target(s, constants, now) {
        Some(ctx) => seq![EventView::XTransactionXtxRevertedAfterTimeOut(ctx.xtx_id)],
        None => Seq::empty(),
    }
}

/// The stores after a sweep at block `now`: the transaction that the sweep
/// reverts is written as reverted and leaves the timing links.
pub open spec fn swept_stores(s: StoresView, constants: Constants, now: BlockNumber) -> StoresView {
    match sweep_target(s, constants, now) {
        Some(ctx) => applied_stores(
            s,
            ctx,
            None,
            Seq::empty(),
            (CircuitStatus::RevertTimedOut, CircuitStatus::RevertTimedOut),
        ),
        None => s,
    }
}

impl<T: Config> Pallet<T> {
    /// Settles the current step of a working copy once it is done: where every
    /// side effect of the step is confirmed, the charge of each is committed in
    /// favour of the account that executed it, and the bonds of the step go
    /// back. A step that still waits for a confirmation is left alone.
    ///
    /// Nothing is written to the stores. On a refusal of the account manager or
    /// of the escrow the working copy stays as it is.
    pub fn settle_step(&mut self, local_ctx: &mut LocalXtxCtx) -> (r: Result<(), Error>)
        requires
            old(self).wf(),
            old(local_ctx).encodable(),
        ensures
            final(self).wf(),
            final(self).same_settings(old(self)),
            final(self).stores.deep_view() == old(self).stores.deep_view(),
            final(local_ctx).encodable(),
            !crate::xtx::current_step_done(
                old(local_ctx).xtx.steps_cnt,
                old(local_ctx).full_side_effects.deep_view(),
            ) ==> r is Ok,
            match r {
                Ok(_) => final(local_ctx).deep_view() == settled_step_ctx(
                    old(local_ctx).deep_view(),
                ),
                Err(e) => settlement_refusal(e) && final(local_ctx).deep_view() == old(local_ctx).deep_view(),
            },
    {
        let cursor = local_ctx.xtx.steps_cnt.0;
        if cursor >= local_ctx.xtx.steps_cnt.1 || cursor as usize
            >= local_ctx.full_side_effects.len() {
            return Ok(());
        }
        assert(local_ctx.full_side_effects.deep_view()[cursor as int]
            == local_ctx.full_side_effects@[cursor as int].deep_view());
        if !crate::status::is_step_confirmed(&local_ctx.full_side_effects[cursor as usize]) {
            return Ok(());
        }
        let status = local_ctx.xtx.status;
        let escrow_account = self.constants.self_account_id;
        local_ctx.xtx.status = CircuitStatus::Finished;
        let settled = square_up(
            &mut self.account_manager,
            &mut self.escrow,
            &escrow_account,
            local_ctx,
            None,
            None,
        );
        local_ctx.xtx.status = status;
        settled
    }

    /// Confirms a side effect of an execution transaction for a relayer.
    ///
    /// The call is refused, and the stores stay as they are: for an origin that
    /// is not signed; where the execution transaction cannot be loaded; where
    /// the current step does not hold the side effect, or holds it confirmed (a
    /// second confirmation is refused before any write); and where the portal
    /// or the protocol refuses the confirmation. Else a step that is done with
    /// this confirmation is settled: its charges are committed and its bonds go
    /// back. The steps are then written with the confirmation, the transaction
    /// with its new status and cursor, and the events are returned.
    ///
    /// A transaction that is over takes no confirmation, and one that is not
    /// ready yet is not loaded for one: the setup refuses it with
    /// `SetupFailedIncorrectXtxStatus`. The deposits stay with their links, and
    /// the timing links stay consistent: the confirmation that ends a
    /// transaction takes its timing link away.
    pub fn confirm_side_effect(
        &mut self,
        origin: Origin,
        xtx_id: XtxId,
        side_effect: SideEffect,
        confirmation: ConfirmedSideEffect,
        _inclusion_proof: Option<Vec<Vec<u8>>>,
        _block_hash: Option<Vec<u8>>,
    ) -> (r: Result<Vec<Event>, DispatchError>)
        requires
            old(self).wf(),
        ensures
            final(self).wf(),
            final(self).same_settings(old(self)),
            final(self).stores.signal_queue@ == old(self).stores.signal_queue@,
            r is Err ==> final(self).stores.deep_view() == old(self).stores.deep_view(),
            insurance_consistent(old(self).stores.deep_view()) ==> insurance_consistent(
                final(self).stores.deep_view(),
            ),
            timing_consistent(old(self).stores.deep_view()) ==> timing_consistent(
                final(self).stores.deep_view(),
            ),
            match authorized(origin, CircuitRole::Relayer) {
                Err(_) => r == Err::<Vec<Event>, DispatchError>(DispatchError::BadOrigin),
                Ok(relayer) => match setup_spec(
                    old(self).stores.deep_view(),
                    CircuitStatus::PendingExecution,
                    relayer,
                    0,
                    Some(xtx_id),
                    old(self).block_number,
                    old(self).constants.xtx_timeout_default,
                ) {
                    Err(e) => r == Err::<Vec<Event>, DispatchError>(DispatchError::Module(e)),
                    Ok(loaded) => if loaded.xtx.status.is_terminal() {
                        r == Err::<Vec<Event>, DispatchError>(
                            DispatchError::Module(Error::ApplyTriggeredWithUnexpectedStatus),
                        )
                    } else {
                        match confirmed_steps(
                        loaded,
                        side_effect.deep_view(),
                        confirmation.deep_view(),
                    ) {
                        Err(e) => r == Err::<Vec<Event>, DispatchError>(DispatchError::Other(e)),
                        Ok(steps) => match r {
                            Err(e) => e is Other || (status_change_of(
                                attached_ctx(loaded, steps),
                            ) matches Err(refusal) && e == DispatchError::Module(refusal)) || (
                            crate::xtx::current_step_done(loaded.xtx.steps_cnt, steps) && (
                            e matches DispatchError::Module(refusal) && settlement_refusal(
                                refusal,
                            ))),
                            Ok(events) => {
                                let ctx = confirmed_ctx(loaded, steps);
                                let change = (loaded.xtx.status, ctx.xtx.status);
                                &&& final(self).stores.deep_view() == applied_stores(
                                    old(self).stores.deep_view(),
                                    applied_ctx(ctx, change),
                                    None,
                                    Seq::empty(),
                                    change,
                                )
                                &&& events.deep_view() == seq![
                                    EventView::SideEffectConfirmed(
                                        side_effect_id(side_effect.deep_view()),
                                    ),
                                ] + emitted(
                                    xtx_id,
                                    applied_xtx(applied_ctx(ctx, change), change),
                                    relayer,
                                    Seq::empty(),
                                    applied_steps(applied_ctx(ctx, change), change),
                                )
                            },
                        },
                    }
                    },
                },
            },
    {
        let relayer = match authorize(origin, CircuitRole::Relayer) {
            Ok(account) => account,
            Err(e) => {
                return Err(e);
            },
        };
        let mut local_xtx_ctx = match self.setup(
            CircuitStatus::PendingExecution,
            &relayer,
            0,
            Some(xtx_id),
        ) {
            Ok(ctx) => ctx,
            Err(e) => {
                return Err(DispatchError::Module(e));
            },
        };
        if local_xtx_ctx.xtx.status.terminal() {
            return Err(DispatchError::Module(Error::ApplyTriggeredWithUnexpectedStatus));
        }
        match confirm(
            &self.xdns,
            &self.portal,
            &self.protocol,
            &mut local_xtx_ctx,
            &relayer,
            &side_effect,
            &confirmation,
        ) {
            Ok(_) => {},
            Err(e) => {
                return Err(DispatchError::Other(e));
            },
        }
        match self.settle_step(&mut local_xtx_ctx) {
            Ok(_) => {},
            Err(e) => {
                return Err(DispatchError::Module(e));
            },
        }
        let status_change = match local_xtx_ctx.update() {
            Ok(change) => change,
            Err(e) => {
                return Err(DispatchError::Module(e));
            },
        };
        let nothing: Vec<SideEffectId> = Vec::new();
        assert(nothing@ =~= Seq::<SideEffectId>::empty());
        let ghost before = self.stores.deep_view();
        let ghost confirmed = local_xtx_ctx.deep_view();
        let (maybe_xtx_changed, assert_full_side_effects_changed) = self.stores.apply(
            &mut local_xtx_ctx,
            None,
            &nothing,
            status_change,
        );
        proof {
            if timing_consistent(before) {
                assert(crate::table::has_key(before.active_x_exec_signals_timing_links, xtx_id));
                lemma_apply_keeps_timing_links(
                    before,
                    local_xtx_ctx.deep_view(),
                    None,
                    Seq::empty(),
                    status_change,
                );
            }
            if insurance_consistent(before) {
                assert(deposit_ids(confirmed.insurance_deposits) =~= links_of(before, xtx_id));
                lemma_loaded_deposits_fit(before, xtx_id, confirmed.insurance_deposits);
                lemma_apply_keeps_insurance_links(
                    before,
                    local_xtx_ctx.deep_view(),
                    None,
                    Seq::empty(),
                    status_change,
                );
            }
        }
        let mut events: Vec<Event> = Vec::new();
        events.push(Event::SideEffectConfirmed(side_effect.generate_id()));
        assert(events.deep_view() =~= seq![
            EventView::SideEffectConfirmed(side_effect_id(side_effect.deep_view())),
        ]);
        let no_side_effects: Vec<SideEffect> = Vec::new();
        assert(no_side_effects.deep_view() =~= Seq::<SideEffectView>::empty());
        let mut emitted_events = emit(
            local_xtx_ctx.xtx_id,
            maybe_xtx_changed,
            &relayer,
            &no_side_effects,
            assert_full_side_effects_changed,
        );
        append_events(&mut events, &mut emitted_events);
        Ok(events)
    }

    /// Queues a signal of a contract author for the next block.
    ///
    /// A queue that holds as many signals as its depth allows takes no more:
    /// the signal is refused with `SignalQueueFull`.
    pub fn on_signal(&mut self, origin: Origin, signal: crate::signal::ExecutionSignal) -> (r:
        Result<(), DispatchError>)
        requires
            old(self).wf(),
        ensures
            final(self).wf(),
            final(self).same_settings(old(self)),
            match authorized(origin, CircuitRole::ContractAuthor) {
                Err(_) => r == Err::<(), DispatchError>(DispatchError::BadOrigin) && final(self).stores.deep_view() == old(self).stores.deep_view(),
                Ok(requester) => if old(self).stores.signal_queue@.len() >= old(self).constants.signal_queue_depth {
                    r == Err::<(), DispatchError>(DispatchError::Module(Error::SignalQueueFull))
                        && final(self).stores.deep_view() == old(self).stores.deep_view()
                } else {
                    r is Ok && final(self).stores.deep_view() == (StoresView {
                        signal_queue: old(self).stores.signal_queue@.push((requester, signal)),
                        ..old(self).stores.deep_view()
                    })
                },
            },
    {
        let requester = match authorize(origin, CircuitRole::ContractAuthor) {
            Ok(account) => account,
            Err(e) => {
                return Err(e);
            },
        };
        if self.stores.signal_queue.len() >= self.constants.signal_queue_depth as usize {
            return Err(DispatchError::Module(Error::SignalQueueFull));
        }
        self.stores.signal_queue.push((requester, signal));
        Ok(())
    }

    /// Finds the first timing link that has run out at the current block.
    fn find_timed_out(&self) -> (r: Option<XtxId>)
        ensures
            match r {
                Some(id) => first_timed_out(
                    self.stores.deep_view().active_x_exec_signals_timing_links,
                    self.block_number,
                ) < self.stores.deep_view().active_x_exec_signals_timing_links.len() && id
                    == self.stores.deep_view().active_x_exec_signals_timing_links[first_timed_out(
                    self.stores.deep_view().active_x_exec_signals_timing_links,
                    self.block_number,
                )].0,
                None => first_timed_out(
                    self.stores.deep_view().active_x_exec_signals_timing_links,
                    self.block_number,
                ) >= self.stores.deep_view().active_x_exec_signals_timing_links.len(),
            },
    {
        let ghost links = self.stores.deep_view().active_x_exec_signals_timing_links;
        let n = self.stores.active_x_exec_signals_timing_links.len();
        let mut i: usize = 0;
        while i < n
            invariant
                i <= n,
                n == links.len(),
                links == self.stores.active_x_exec_signals_timing_links.slots(),
                forall|k: int| 0 <= k < i ==> (#[trigger] links[k]).1 > self.block_number,
            decreases n - i,
        {
            let entry = self.stores.active_x_exec_signals_timing_links.entry(i);
            if entry.1 <= self.block_number {
                proof {
                    lemma_first_timed_out(links, self.block_number);
                }
                return Some(entry.0);
            }
            i += 1;
        }
        proof {
            lemma_first_timed_out(links, self.block_number);
        }
        None
    }

    /// Sweeps the timing links at the current block: the first execution
    /// transaction whose timeout has come, at this block or an earlier one, is
    /// reverted with `RevertTimedOut`. One sweep reverts one transaction at most,
    /// and none where the deletion limit is zero.
    ///
    /// The stores then are `swept_stores`. Where the timing links were
    /// consistent, they stay so, and the transaction that is reverted was under way.
    pub fn sweep_timeouts(&mut self) -> (r: Vec<Event>)
        requires
            old(self).wf(),
        ensures
            final(self).wf(),
            final(self).same_settings(old(self)),
            final(self).stores.signal_queue@ == old(self).stores.signal_queue@,
            final(self).stores.deep_view() == swept_stores(
                old(self).stores.deep_view(),
                old(self).constants,
                old(self).block_number,
            ),
            r.deep_view() == sweep_events(
                old(self).stores.deep_view(),
                old(self).constants,
                old(self).block_number,
            ),
            insurance_consistent(old(self).stores.deep_view()) ==> insurance_consistent(
                final(self).stores.deep_view(),
            ),
            timing_consistent(old(self).stores.deep_view()) ==> timing_consistent(
                final(self).stores.deep_view(),
            ) && (sweep_target(
                old(self).stores.deep_view(),
                old(self).constants,
                old(self).block_number,
            ) matches Some(ctx) ==> old(self).stores.deep_view().x_exec_signals[ctx.xtx_id].status.is_active()),
    {
        let mut events: Vec<Event> = Vec::new();
        assert(events.deep_view() =~= Seq::<EventView>::empty());
        if self.constants.deletion_queue_limit == 0 {
            return events;
        }
        let xtx_id = match self.find_timed_out() {
            Some(id) => id,
            None => {
                return events;
            },
        };
        let account = self.constants.self_account_id;
        let mut local_xtx_ctx = match self.setup(
            CircuitStatus::RevertTimedOut,
            &account,
            0,
            Some(xtx_id),
        ) {
            Ok(ctx) => ctx,
            Err(_) => {
                return events;
            },
        };
        let ghost before = self.stores.deep_view();
        let ghost loaded = local_xtx_ctx.deep_view();
        match self.kill(&mut local_xtx_ctx, CircuitStatus::RevertTimedOut) {
            Ok(_) => {},
            Err(_) => {
                return events;
            },
        }
        proof {
            assert(local_xtx_ctx.deep_view() == timed_out_ctx(loaded));
            if timing_consistent(before) {
                let links = before.active_x_exec_signals_timing_links;
                let at = first_timed_out(links, self.block_number);
                lemma_first_timed_out(links, self.block_number);
                assert(links[at].0 == xtx_id);
                assert(crate::table::has_key(links, xtx_id));
                lemma_apply_keeps_timing_links(
                    before,
                    timed_out_ctx(loaded),
                    None,
                    Seq::empty(),
                    (CircuitStatus::RevertTimedOut, CircuitStatus::RevertTimedOut),
                );
            }
        }
        let no_side_effects: Vec<SideEffect> = Vec::new();
        assert(no_side_effects.deep_view() =~= Seq::<SideEffectView>::empty());
        let emitted_events = emit(
            local_xtx_ctx.xtx_id,
            Some(local_xtx_ctx.xtx),
            &account,
            &no_side_effects,
            None,
        );
        assert(emitted_events.deep_view() =~= seq![
            EventView::XTransactionXtxRevertedAfterTimeOut(xtx_id),
        ]);
        emitted_events
    }
}


/// The status of a transaction never goes down by a confirmation: where the
/// stored status is the one that steps and deposits determine, the cursor stands
/// on the first open step, no later step holds a confirmation and every step
/// after the first holds one side effect, the update after the confirmation
/// reports a status that is the same or a later one.
pub proof fn lemma_confirmation_never_lowers_status(
    loaded: LocalXtxCtxView,
    side_effect: SideEffectView,
    confirmation: crate::primitives::ConfirmedSideEffectView,
)
    requires
        loaded.xtx.steps_cnt.1 == loaded.full_side_effects.len(),
        loaded.xtx.steps_cnt.0 == first_open_step(loaded.full_side_effects),
        unconfirmed_after(loaded.full_side_effects, loaded.xtx.steps_cnt.0 as int),
        forall|s: int|
            1 <= s < loaded.full_side_effects.len() ==> (#[trigger] loaded.full_side_effects[s]).len()
                == 1,
        xtx_status(loaded.full_side_effects, loaded.insurance_deposits) == Ok::<
            CircuitStatus,
            Error,
        >(loaded.xtx.status),
        confirmed_steps(loaded, side_effect, confirmation) is Ok,
    ensures
        status_change_of(
            LocalXtxCtxView {
                full_side_effects: confirmed_steps(loaded, side_effect, confirmation)->Ok_0,
                ..loaded
            },
        ) is Ok,
        status_change_of(
            LocalXtxCtxView {
                full_side_effects: confirmed_steps(loaded, side_effect, confirmation)->Ok_0,
                ..loaded
            },
        )->Ok_0.0 == loaded.xtx.status,
        loaded.xtx.status.rank() <= status_change_of(
            LocalXtxCtxView {
                full_side_effects: confirmed_steps(loaded, side_effect, confirmation)->Ok_0,
                ..loaded
            },
        )->Ok_0.1.rank(),
{
    crate::xtx::lemma_confirmation_raises_status(
        loaded.full_side_effects,
        loaded.insurance_deposits,
        side_effect_id(side_effect),
        confirmation,
    );
}

/// A second confirmation of one side effect is refused, over two calls: after
/// the confirmation of a side effect of a transaction that was loaded for it and
/// was not over is written, the transaction as it is loaded again is over, or
/// it takes no confirmation for that side effect, whatever the confirmation
/// holds. Where the first confirmation advanced the cursor, the side effect is
/// taken not to recur in the step that the cursor then stands on.
pub proof fn lemma_second_confirmation_refused_after_write(
    s: StoresView,
    loaded: LocalXtxCtxView,
    side_effect: SideEffectView,
    first: crate::primitives::ConfirmedSideEffectView,
    second: crate::primitives::ConfirmedSideEffectView,
    relayer: AccountId,
    now: BlockNumber,
    timeout: BlockNumber,
)
    requires
        setup_spec(
            s,
            CircuitStatus::PendingExecution,
            relayer,
            0,
            Some(loaded.xtx_id),
            now,
            timeout,
        ) == Ok::<LocalXtxCtxView, Error>(loaded),
        !loaded.xtx.status.is_terminal(),
        confirmed_steps(loaded, side_effect, first) is Ok,
        status_change_of(
            attached_ctx(loaded, confirmed_steps(loaded, side_effect, first)->Ok_0),
        ) is Ok,
        ({
            let ctx = confirmed_ctx(loaded, confirmed_steps(loaded, side_effect, first)->Ok_0);
            ctx.xtx.steps_cnt.0 != loaded.xtx.steps_cnt.0 ==> forall|j: int|
                0 <= j < crate::xtx::current_step_of(ctx).len() ==> side_effect_id(
                    (#[trigger] crate::xtx::current_step_of(ctx)[j]).input,
                ) != side_effect_id(side_effect)
        }),
    ensures
        ({
            let ctx = confirmed_ctx(loaded, confirmed_steps(loaded, side_effect, first)->Ok_0);
            let change = (loaded.xtx.status, ctx.xtx.status);
            let after = applied_stores(s, applied_ctx(ctx, change), None, Seq::empty(), change);
            match setup_spec(
                after,
                CircuitStatus::PendingExecution,
                relayer,
                0,
                Some(loaded.xtx_id),
                now,
                timeout,
            ) {
                Ok(again) => again.xtx.status.is_terminal() || confirmed_steps(
                    again,
                    side_effect,
                    second,
                ) is Err,
                Err(_) => true,
            }
        }),
{
    let steps = confirmed_steps(loaded, side_effect, first)->Ok_0;
    let ctx = confirmed_ctx(loaded, steps);
    let change = (loaded.xtx.status, ctx.xtx.status);
    let written = applied_ctx(ctx, change);
    let after = applied_stores(s, written, None, Seq::empty(), change);
    let id = side_effect_id(side_effect);
    let cursor = loaded.xtx.steps_cnt.0 as int;
    assert(after.x_exec_signals[loaded.xtx_id] == written.xtx);
    assert(after.full_side_effects[loaded.xtx_id] == steps);
    crate::xtx::lemma_second_confirmation_refused(
        loaded.full_side_effects[cursor],
        id,
        first,
        second,
    );
    if ctx.xtx.steps_cnt.0 != loaded.xtx.steps_cnt.0 && ctx.xtx.steps_cnt.0 < steps.len() {
        crate::xtx::lemma_position_in_step(crate::xtx::current_step_of(ctx), id);
    }
}

/// The status of a transaction never goes down by a bond: where the stored
/// status is the one that steps and deposits determine and the transaction
/// waits for insurance, the update after the bond reports a status that is the
/// same or a later one.
pub proof fn lemma_bond_never_lowers_status(
    loaded: LocalXtxCtxView,
    sfx_id: SideEffectId,
    executor: AccountId,
    now: BlockNumber,
)
    requires
        loaded.xtx.status is PendingInsurance,
        xtx_status(loaded.full_side_effects, loaded.insurance_deposits) == Ok::<
            CircuitStatus,
            Error,
        >(loaded.xtx.status),
        bond_request(loaded.insurance_deposits, sfx_id) is Ok,
    ensures
        status_change_of(
            bonding_ctx(loaded, sfx_id, bonded_entry(loaded, sfx_id, executor, now)),
        ) is Ok,
        loaded.xtx.status.rank() <= status_change_of(
            bonding_ctx(loaded, sfx_id, bonded_entry(loaded, sfx_id, executor, now)),
        )->Ok_0.1.rank(),
{
    crate::optimistic::lemma_deposit_position(loaded.insurance_deposits, sfx_id);
    let at = crate::optimistic::deposit_position(loaded.insurance_deposits, sfx_id);
    crate::xtx::lemma_bond_raises_status(
        loaded.full_side_effects,
        loaded.insurance_deposits,
        at,
        bonded_entry(loaded, sfx_id, executor, now),
    );
}

/// The status of an execution transaction is read from the stores; this entry
/// is kept for the callers that name it and does nothing.
pub fn get_xtx_status() {
}

/// A payload that an offchain worker signs: the block at which it was made and
/// the key that signs it.
#[derive(Clone, Copy, Debug, PartialEq, Eq)]
pub struct Payload<Public, Number> {
    block_number: Number,
    public: Public,
}

impl<Public: Copy, Number: Copy> Payload<Public, Number> {
    /// A payload made at `block_number` for the key `public`.
    pub fn new(block_number: Number, public: Public) -> (r: Self)
        ensures
            r.spec_public() == public,
            r.spec_block_number() == block_number,
    {
        Payload { block_number, public }
    }

    /// The key that signs the payload.
    pub closed spec fn spec_public(&self) -> Public {
        self.public
    }

    /// The block at which the payload was made.
    pub closed spec fn spec_block_number(&self) -> Number {
        self.block_number
    }

    /// The key that signs the payload.
    pub fn public(&self) -> (r: Public)
        ensures
            r == self.spec_public(),
    {
        self.public
    }

    /// The block at which the payload was made.
    pub fn block_number(&self) -> (r: Number)
        ensures
            r == self.spec_block_number(),
    {
        self.block_number
    }
}

} // verus!
