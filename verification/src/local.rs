//! Triggers of local programs: a contract on the host chain asks for the state of
//! an execution, or admits the side effects that it produced.
use crate::engine::{
    admitted_all, admitted_deposits, local_ids_fit, square_up_plan, validate, Admission,
};
use crate::error::{DispatchError, Error, NO_SIDE_EFFECTS};
use crate::events::{emitted, Event, EventView};
use crate::identity::xtx_id_of;
use crate::interfaces::Config;
use crate::invariants::{
    insurance_consistent, lemma_apply_keeps_insurance_links, lemma_apply_keeps_timing_links,
    timing_consistent,
};
use crate::pallet::{
    admission_outcome, authorize, authorized, squared_ctx, status_change_of, Pallet,
};
use crate::primitives::{
    clone_steps, AccountId, Balance, BlockNumber, CircuitRole, FullSideEffect, LocalState,
    Origin, SideEffect, SideEffectId, SideEffectView, StepsView, TargetId, XtxId, H256,
};
use crate::status::CircuitStatus;
use crate::storage::{applied_ctx, applied_steps, applied_stores, setup_spec, StoresView};
use crate::validator::steps_layout;
use crate::xtx::{current_step_of, updated_ctx, LocalXtxCtxView};
use vstd::prelude::*;

verus! {

/// Reason given by the triggers that the Circuit does not serve yet.
pub const NOT_AVAILABLE: &'static str = "Trigger is not available";

/// What a local program hands to the Circuit.
#[derive(Debug, PartialEq, Eq)]
pub struct LocalTrigger {
    /// The contract that produced the side effects.
    pub contract: AccountId,
    /// The side effects that it produced, each encoded.
    pub submitted_side_effects: Vec<Vec<u8>>,
    /// The execution that the trigger continues, if it continues one.
    pub maybe_xtx_id: Option<XtxId>,
}

/// Deep view of a [`LocalTrigger`].
pub struct LocalTriggerView {
    pub contract: AccountId,
    pub submitted_side_effects: Seq<Seq<u8>>,
    pub maybe_xtx_id: Option<XtxId>,
}

impl DeepView for LocalTrigger {
    type V = LocalTriggerView;

    open spec fn deep_view(&self) -> LocalTriggerView {
        LocalTriggerView {
            contract: self.contract,
            submitted_side_effects: self.submitted_side_effects.deep_view(),
            maybe_xtx_id: self.maybe_xtx_id,
        }
    }
}

/// The trigger that a byte string decodes to under SCALE, as the tuple of the
/// optional execution, the contract and the side effects; none for bytes that
/// are no such encoding.
pub uninterp spec fn scale_decoded_trigger(bytes: Seq<u8>) -> Option<LocalTriggerView>;

/// Calls `parity_scale_codec::Decode::decode` for the tuple of an optional hash, a
/// hash and a list of byte strings, on the given bytes. The result depends on the
/// bytes alone; the contract claims only that it is that decoding, under the name
/// `scale_decoded_trigger`.
#[verifier::external_body]
pub(crate) fn decode_local_trigger(bytes: &Vec<u8>) -> (r: Option<LocalTrigger>)
    ensures
        r.deep_view() == scale_decoded_trigger(bytes@),
{
    let mut input = bytes.as_slice();
    match <(Option<H256>, H256, Vec<Vec<u8>>) as parity_scale_codec::Decode>::decode(&mut input) {
        Ok((maybe_xtx_id, contract, submitted_side_effects)) => Some(
            LocalTrigger { contract, submitted_side_effects, maybe_xtx_id },
        ),
        Err(_) => None,
    }
}

/// The side effect that a byte string decodes to under SCALE, as the tuple of its
/// fields; none for bytes that are no such encoding.
pub uninterp spec fn scale_decoded_side_effect(bytes: Seq<u8>) -> Option<SideEffectView>;

/// Calls `parity_scale_codec::Decode::decode` for the tuple of the fields of a
/// side effect, on the given bytes. The result depends on the bytes alone; the
/// contract claims only that it is that decoding, under the name
/// `scale_decoded_side_effect`.
#[verifier::external_body]
pub(crate) fn decode_fields(bytes: &Vec<u8>) -> (r: Option<
    (TargetId, Balance, BlockNumber, Vec<u8>, Vec<Vec<u8>>, Vec<u8>, Option<AccountId>),
>)
    ensures
        match r {
            Some(f) => scale_decoded_side_effect(bytes@) == Some(
                SideEffectView {
                    target: f.0,
                    prize: f.1,
                    ordered_at: f.2,
                    encoded_action: f.3@,
                    encoded_args: f.4.deep_view(),
                    signature: f.5@,
                    enforce_executioner: f.6,
                },
            ),
            None => scale_decoded_side_effect(bytes@) is None,
        },
{
    let mut input = bytes.as_slice();
    parity_scale_codec::Decode::decode(&mut input).ok()
}

/// The side effect that a byte string decodes to, if it decodes to one.
pub fn decode_side_effect(bytes: &Vec<u8>) -> (r: Option<SideEffect>)
    ensures
        r.deep_view() == scale_decoded_side_effect(bytes@),
{
    match decode_fields(bytes) {
        Some(fields) => Some(
            SideEffect {
                target: fields.0,
                prize: fields.1,
                ordered_at: fields.2,
                encoded_action: fields.3,
                encoded_args: fields.4,
                signature: fields.5,
                enforce_executioner: fields.6,
            },
        ),
        None => None,
    }
}

/// What each byte string of a list decodes to.
pub open spec fn decoded_all(list: Seq<Seq<u8>>) -> Seq<Option<SideEffectView>> {
    Seq::new(list.len(), |i: int| scale_decoded_side_effect(list[i]))
}

/// What a local program sees of an execution.
#[derive(Debug, PartialEq, Eq)]
pub struct LocalStateExecutionView {
    /// The execution.
    pub xtx_id: XtxId,
    /// Its local state.
    pub local_state: LocalState,
    /// Its steps.
    pub side_effects: Vec<Vec<FullSideEffect>>,
    /// Its step cursor and the number of its steps.
    pub steps_cnt: (u32, u32),
}

/// Deep view of a [`LocalStateExecutionView`].
pub struct LocalStateExecutionViewView {
    pub xtx_id: XtxId,
    pub local_state: Seq<(H256, Seq<u8>)>,
    pub side_effects: StepsView,
    pub steps_cnt: (u32, u32),
}

impl DeepView for LocalStateExecutionView {
    type V = LocalStateExecutionViewView;

    open spec fn deep_view(&self) -> LocalStateExecutionViewView {
        LocalStateExecutionViewView {
            xtx_id: self.xtx_id,
            local_state: self.local_state.deep_view(),
            side_effects: self.side_effects.deep_view(),
            steps_cnt: self.steps_cnt,
        }
    }
}

impl LocalStateExecutionView {
    /// The view of an execution.
    pub fn new(
        xtx_id: XtxId,
        local_state: LocalState,
        side_effects: Vec<Vec<FullSideEffect>>,
        steps_cnt: (u32, u32),
    ) -> (r: Self)
        ensures
            r.deep_view() == (LocalStateExecutionViewView {
                xtx_id,
                local_state: local_state.deep_view(),
                side_effects: side_effects.deep_view(),
                steps_cnt,
            }),
    {
        LocalStateExecutionView { xtx_id, local_state, side_effects, steps_cnt }
    }
}

/// The status with which a trigger enters: `Ready` to continue an execution,
/// `Requested` to open one.
pub open spec fn entry_status(maybe_xtx_id: Option<XtxId>) -> CircuitStatus {
    match maybe_xtx_id {
        Some(_) => CircuitStatus::Ready,
        None => CircuitStatus::Requested,
    }
}

/// The working copy of a stored execution once a bundle is validated on it:
/// its steps are the layout of the bundle as some answers of the collaborators
/// classify it, and the deposits of the insured side effects follow those that
/// were loaded.
pub open spec fn validated_onto(
    v: LocalXtxCtxView,
    loaded: LocalXtxCtxView,
    requester: AccountId,
    now: BlockNumber,
    sfx: Seq<SideEffectView>,
) -> bool {
    exists|answers: Seq<Admission>|
        {
            &&& answers.len() == sfx.len()
            &&& v.full_side_effects == steps_layout(#[trigger] admitted_all(sfx, answers))
            &&& v.insurance_deposits == loaded.insurance_deposits + admitted_deposits(
                sfx,
                answers,
                requester,
                now,
            )
            &&& v.xtx_id == loaded.xtx_id
            &&& v.xtx == loaded.xtx
        }
}

/// The working copy that the stores take once a validated working copy is
/// settled and updated.
pub open spec fn settled_and_updated(v: LocalXtxCtxView) -> LocalXtxCtxView {
    applied_ctx(updated_ctx(squared_ctx(v)), status_change_of(squared_ctx(v))->Ok_0)
}

/// What a trigger that continues an execution leaves: the bundle was validated
/// on the working copy as it was loaded, the settlement of its status was
/// planned, and the stores have taken the working copy as it was settled and
/// updated; the events are those of the admission.
pub open spec fn readmission_outcome(
    before: StoresView,
    after: StoresView,
    events: Seq<EventView>,
    loaded: LocalXtxCtxView,
    requester: AccountId,
    now: BlockNumber,
    sfx: Seq<SideEffectView>,
    gateway: TargetId,
) -> bool {
    exists|v: LocalXtxCtxView, ids: Seq<SideEffectId>|
        {
            &&& validated_onto(v, loaded, requester, now, sfx)
            &&& square_up_plan(v.xtx.status, current_step_of(v), Some(requester), None) is Ok
            &&& status_change_of(squared_ctx(v)) is Ok
            &&& v.xtx.status is Requested ==> local_ids_fit(ids, v.full_side_effects, gateway)
            &&& after == #[trigger] applied_stores(
                before,
                settled_and_updated(v),
                None,
                ids,
                status_change_of(squared_ctx(v))->Ok_0,
            )
            &&& events == emitted(
                v.xtx_id,
                Some(settled_and_updated(v).xtx),
                requester,
                sfx,
                applied_steps(settled_and_updated(v), status_change_of(squared_ctx(v))->Ok_0),
            )
        }
}

/// The side effects that converted, in their order.
pub open spec fn converted(side_effects: Seq<Option<SideEffectView>>) -> Seq<SideEffectView>
    decreases side_effects.len(),
{
    if side_effects.len() == 0 {
        Seq::empty()
    } else {
        let rest = converted(side_effects.drop_last());
        match side_effects.last() {
            Some(sfx) => rest.push(sfx),
            None => rest,
        }
    }
}

/// What a local program sees of the working copy of an execution.
pub open spec fn view_of(ctx: LocalXtxCtxView) -> LocalStateExecutionViewView {
    LocalStateExecutionViewView {
        xtx_id: ctx.xtx_id,
        local_state: ctx.local_state,
        side_effects: ctx.full_side_effects,
        steps_cnt: ctx.xtx.steps_cnt,
    }
}

impl<T: Config> Pallet<T> {
    /// The side effects that the Circuit itself adds in the context of an
    /// execution: none. A local program hands its side effects over with its
    /// trigger.
    pub fn exec_in_xtx_ctx(
        _xtx_id: XtxId,
        _local_state: LocalState,
        _full_side_effects: Vec<Vec<FullSideEffect>>,
        _steps_cnt: (u32, u32),
    ) -> (r: Result<Vec<SideEffect>, &'static str>)
        ensures
            r is Ok,
            r->Ok_0@.len() == 0,
    {
        Ok(Vec::new())
    }

    /// Decodes the side effects of a list, keeps those that decode, and refuses a
    /// list that leaves none.
    pub fn convert_side_effects(side_effects: Vec<Vec<u8>>) -> (r: Result<
        Vec<SideEffect>,
        &'static str,
    >)
        ensures
            match r {
                Ok(kept) => kept.deep_view() == converted(
                    decoded_all(side_effects.deep_view()),
                ) && kept@.len() > 0,
                Err(e) => e == NO_SIDE_EFFECTS && converted(
                    decoded_all(side_effects.deep_view()),
                ).len() == 0,
            },
    {
        let ghost s = decoded_all(side_effects.deep_view());
        let mut kept: Vec<SideEffect> = Vec::new();
        let mut i: usize = 0;
        assert(s.take(0) =~= Seq::empty());
        while i < side_effects.len()
            invariant
                i <= side_effects.len(),
                s == decoded_all(side_effects.deep_view()),
                kept.deep_view() == converted(s.take(i as int)),
            decreases side_effects.len() - i,
        {
            let ghost kept_before = kept.deep_view();
            proof {
                assert(side_effects.deep_view()[i as int] == side_effects@[i as int]@);
                assert(s.take(i + 1).drop_last() =~= s.take(i as int));
                assert(s.take(i + 1).last() == s[i as int]);
            }
            match decode_side_effect(&side_effects[i]) {
                Some(sfx) => {
                    kept.push(sfx);
                    assert(kept.deep_view() =~= kept_before.push(s[i as int]->Some_0));
                },
                None => {},
            }
            i += 1;
        }
        assert(s.take(side_effects.len() as int) =~= s);
        if kept.len() == 0 {
            Err(NO_SIDE_EFFECTS)
        } else {
            Ok(kept)
        }
    }

    /// Gives a contract author the state of an execution: that of the given
    /// execution, or that of a fresh one, which is then written to the stores.
    ///
    /// The call is refused, and the stores stay as they are, for an origin that
    /// is not signed and where the execution cannot be loaded.
    pub fn load_local_state(&mut self, origin: &Origin, maybe_xtx_id: Option<XtxId>) -> (r:
        Result<LocalStateExecutionView, DispatchError>)
        requires
            old(self).wf(),
            maybe_xtx_id is None ==> old(self).can_time(),
        ensures
            final(self).wf(),
            final(self).same_settings(old(self)),
            final(self).stores.signal_queue@ == old(self).stores.signal_queue@,
            timing_consistent(old(self).stores.deep_view()) ==> timing_consistent(
                final(self).stores.deep_view(),
            ),
            insurance_consistent(old(self).stores.deep_view()) && (maybe_xtx_id is None
                ==> forall|sfx: SideEffectId|
                !(#[trigger] old(self).stores.deep_view().insurance_deposits.contains_key(
                    (
                        xtx_id_of(
                            authorized(*origin, CircuitRole::ContractAuthor)->Ok_0,
                            old(self).timeout_block(),
                        ),
                        sfx,
                    ),
                ))) ==> insurance_consistent(final(self).stores.deep_view()),
            match authorized(*origin, CircuitRole::ContractAuthor) {
                Err(_) => r == Err::<LocalStateExecutionView, DispatchError>(
                    DispatchError::BadOrigin,
                ) && final(self).stores.deep_view() == old(self).stores.deep_view(),
                Ok(requester) => match setup_spec(
                    old(self).stores.deep_view(),
                    entry_status(maybe_xtx_id),
                    requester,
                    0,
                    maybe_xtx_id,
                    old(self).block_number,
                    old(self).constants.xtx_timeout_default,
                ) {
                    Err(e) => r == Err::<LocalStateExecutionView, DispatchError>(
                        DispatchError::Module(e),
                    ) && final(self).stores.deep_view() == old(self).stores.deep_view(),
                    Ok(loaded) => r is Ok && (if maybe_xtx_id is Some {
                        &&& r->Ok_0.deep_view() == view_of(loaded)
                        &&& final(self).stores.deep_view() == old(self).stores.deep_view()
                    } else {
                        &&& r->Ok_0.deep_view() == view_of(updated_ctx(loaded))
                        &&& final(self).stores.deep_view() == applied_stores(
                            old(self).stores.deep_view(),
                            updated_ctx(loaded),
                            None,
                            Seq::empty(),
                            (CircuitStatus::Requested, CircuitStatus::Requested),
                        )
                    }),
                },
            },
    {
        let requester = match authorize(*origin, CircuitRole::ContractAuthor) {
            Ok(account) => account,
            Err(e) => {
                return Err(e);
            },
        };
        let fresh_or_revoked_exec = match maybe_xtx_id {
            Some(_) => CircuitStatus::Ready,
            None => CircuitStatus::Requested,
        };
        let mut local_xtx_ctx = match self.setup(
            fresh_or_revoked_exec,
            &requester,
            0,
            maybe_xtx_id,
        ) {
            Ok(ctx) => ctx,
            Err(e) => {
                return Err(DispatchError::Module(e));
            },
        };
        if maybe_xtx_id.is_none() {
            assert(crate::status::no_side_effects(local_xtx_ctx.full_side_effects.deep_view()));
            let status_change = match local_xtx_ctx.update() {
                Ok(change) => change,
                Err(e) => {
                    return Err(DispatchError::Module(e));
                },
            };
            let nothing: Vec<SideEffectId> = Vec::new();
            assert(nothing@ =~= Seq::<SideEffectId>::empty());
            let ghost before = self.stores.deep_view();
            let _ = self.stores.apply(&mut local_xtx_ctx, None, &nothing, status_change);
            proof {
                let ctx = local_xtx_ctx.deep_view();
                if timing_consistent(before) {
                    lemma_apply_keeps_timing_links(before, ctx, None, Seq::empty(), status_change);
                }
                let id = xtx_id_of(requester, old(self).timeout_block());
                assert(ctx.xtx_id == id);
                assert(status_change.0 is Requested);
                assert(ctx.insurance_deposits.len() == 0);
                if insurance_consistent(before) && (forall|sfx: SideEffectId|
                    !(#[trigger] before.insurance_deposits.contains_key((id, sfx)))) {
                    lemma_apply_keeps_insurance_links(
                        before,
                        ctx,
                        None,
                        Seq::empty(),
                        status_change,
                    );
                }
            }
        }
        Ok(
            LocalStateExecutionView::new(
                local_xtx_ctx.xtx_id,
                local_xtx_ctx.local_state.clone(),
                clone_steps(&local_xtx_ctx.full_side_effects),
                local_xtx_ctx.xtx.steps_cnt,
            ),
        )
    }

    /// Admits the side effects that a local program produced for a contract author.
    ///
    /// The trigger is decoded, the author is authorized, and the execution is
    /// set up: a fresh one, or the one that the trigger continues. The side
    /// effects that the trigger carries are decoded; those that do not decode are
    /// dropped, and a trigger that leaves none is refused. A fresh execution then
    /// takes the bundle as the bundle of a requester is admitted, without a fee.
    /// An execution that the trigger continues takes it unless it is over: the
    /// bundle is validated on the working copy as it was loaded, and the phases
    /// that follow the validation are those of an admission. An execution that
    /// is ready or in execution plans no charge of a requester, and the trigger
    /// is refused.
    ///
    /// On any refusal the stores stay as they are. The timing links stay
    /// consistent.
    pub fn on_local_trigger(&mut self, origin: Origin, trigger: Vec<u8>) -> (r: Result<
        Vec<Event>,
        DispatchError,
    >)
        requires
            old(self).wf(),
            old(self).can_time(),
        ensures
            final(self).wf(),
            final(self).same_settings(old(self)),
            final(self).stores.signal_queue@ == old(self).stores.signal_queue@,
            r is Err ==> final(self).stores.deep_view() == old(self).stores.deep_view(),
            timing_consistent(old(self).stores.deep_view()) ==> timing_consistent(
                final(self).stores.deep_view(),
            ),
            match scale_decoded_trigger(trigger@) {
                None => r == Err::<Vec<Event>, DispatchError>(
                    DispatchError::Module(Error::InsuranceBondNotRequired),
                ),
                Some(decoded) => match authorized(origin, CircuitRole::ContractAuthor) {
                    Err(_) => r == Err::<Vec<Event>, DispatchError>(DispatchError::BadOrigin),
                    Ok(requester) => match setup_spec(
                        old(self).stores.deep_view(),
                        entry_status(decoded.maybe_xtx_id),
                        requester,
                        0,
                        decoded.maybe_xtx_id,
                        old(self).block_number,
                        old(self).constants.xtx_timeout_default,
                    ) {
                        Err(e) => r == Err::<Vec<Event>, DispatchError>(DispatchError::Module(e)),
                        Ok(loaded) => {
                            let bundle = converted(decoded_all(decoded.submitted_side_effects));
                            if bundle.len() == 0 {
                                r == Err::<Vec<Event>, DispatchError>(
                                    DispatchError::Other(NO_SIDE_EFFECTS),
                                )
                            } else if decoded.maybe_xtx_id is None {
                                r is Ok ==> admission_outcome(
                                    old(self).stores.deep_view(),
                                    final(self).stores.deep_view(),
                                    r->Ok_0.deep_view(),
                                    requester,
                                    0,
                                    old(self).timeout_block(),
                                    old(self).block_number,
                                    bundle,
                                    old(self).constants.self_gateway_id,
                                )
                            } else if loaded.xtx.status.is_terminal() {
                                r == Err::<Vec<Event>, DispatchError>(
                                    DispatchError::Module(
                                        Error::ApplyTriggeredWithUnexpectedStatus,
                                    ),
                                )
                            } else {
                                &&& loaded.xtx.status is Ready || loaded.xtx.status
                                    is PendingExecution ==> r is Err
                                &&& r is Ok ==> readmission_outcome(
                                    old(self).stores.deep_view(),
                                    final(self).stores.deep_view(),
                                    r->Ok_0.deep_view(),
                                    loaded,
                                    requester,
                                    old(self).block_number,
                                    bundle,
                                    old(self).constants.self_gateway_id,
                                )
                            }
                        },
                    },
                },
            },
    {
        let trigger = match decode_local_trigger(&trigger) {
            Some(trigger) => trigger,
            None => {
                return Err(DispatchError::Module(Error::InsuranceBondNotRequired));
            },
        };
        let requester = match authorize(origin, CircuitRole::ContractAuthor) {
            Ok(account) => account,
            Err(e) => {
                return Err(e);
            },
        };
        let sequential = false;
        let continued = match trigger.maybe_xtx_id {
            Some(xtx_id) => xtx_id,
            None => {
                let side_effects = match Self::convert_side_effects(
                    trigger.submitted_side_effects,
                ) {
                    Ok(side_effects) => side_effects,
                    Err(e) => {
                        return Err(DispatchError::Other(e));
                    },
                };
                return self.admit_bundle(&requester, 0, &side_effects, sequential);
            },
        };
        let mut local_xtx_ctx = match self.setup(
            CircuitStatus::Ready,
            &requester,
            0,
            Some(continued),
        ) {
            Ok(ctx) => ctx,
            Err(e) => {
                return Err(DispatchError::Module(e));
            },
        };
        let side_effects = match Self::convert_side_effects(trigger.submitted_side_effects) {
            Ok(side_effects) => side_effects,
            Err(e) => {
                return Err(DispatchError::Other(e));
            },
        };
        if local_xtx_ctx.xtx.status.terminal() {
            return Err(DispatchError::Module(Error::ApplyTriggeredWithUnexpectedStatus));
        }
        let ghost before = self.stores.deep_view();
        let ghost loaded = local_xtx_ctx.deep_view();
        match validate(
            &self.xdns,
            &self.portal,
            &mut self.protocol,
            self.block_number,
            &side_effects,
            &mut local_xtx_ctx,
            &requester,
            sequential,
        ) {
            Ok(_) => {},
            Err(e) => {
                return Err(DispatchError::Other(e));
            },
        }
        let ghost validated = local_xtx_ctx.deep_view();
        proof {
            assert(validated_onto(
                validated,
                loaded,
                requester,
                self.block_number,
                side_effects.deep_view(),
            ));
        }
        let events = match self.finish_admission(&mut local_xtx_ctx, &requester, &side_effects) {
            Ok(events) => events,
            Err(e) => {
                return Err(DispatchError::Module(e));
            },
        };
        proof {
            let change = status_change_of(squared_ctx(validated))->Ok_0;
            let ctx = local_xtx_ctx.deep_view();
            let ids = choose|ids: Seq<SideEffectId>|
                {
                    &&& validated.xtx.status is Requested ==> local_ids_fit(
                        ids,
                        validated.full_side_effects,
                        self.constants.self_gateway_id,
                    )
                    &&& self.stores.deep_view() == #[trigger] applied_stores(
                        before,
                        ctx,
                        None,
                        ids,
                        change,
                    )
                };
            assert(ctx == settled_and_updated(validated));
            assert(readmission_outcome(
                before,
                self.stores.deep_view(),
                events.deep_view(),
                loaded,
                requester,
                self.block_number,
                side_effects.deep_view(),
                self.constants.self_gateway_id,
            ));
            if timing_consistent(before) {
                assert(before.x_exec_signals.contains_key(loaded.xtx_id));
                assert(crate::table::has_key(
                    before.active_x_exec_signals_timing_links,
                    loaded.xtx_id,
                ));
                lemma_apply_keeps_timing_links(before, ctx, None, ids, change);
            }
        }
        Ok(events)
    }

    /// The trigger of a message from another chain. The Circuit does not serve it yet.
    pub fn on_xcm_trigger(&self, _origin: Origin) -> (r: Result<(), DispatchError>)
        ensures
            r == Err::<(), DispatchError>(DispatchError::Other(NOT_AVAILABLE)),
    {
        Err(DispatchError::Other(NOT_AVAILABLE))
    }

    /// The trigger of a remote gateway. The Circuit does not serve it yet.
    pub fn on_remote_gateway_trigger(&self, _origin: Origin) -> (r: Result<(), DispatchError>)
        ensures
            r == Err::<(), DispatchError>(DispatchError::Other(NOT_AVAILABLE)),
    {
        Err(DispatchError::Other(NOT_AVAILABLE))
    }
}

} // verus!
