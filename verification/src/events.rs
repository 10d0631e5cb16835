//! The events that the Circuit publishes, and the rule that picks them.
use crate::identity::{bundle_encodable, side_effect_id};
use crate::primitives::{
    clone_bytes, clone_side_effects, clone_steps, AccountId, Balance, FullSideEffect, SideEffect,
    SideEffectId, SideEffectView, StepsView, XExecSignalId, XtxId, H256,
};
use crate::status::CircuitStatus;
use crate::xbi::{
    access_list_view, clone_access_list, AccessListView, AccountId20, AccountId32,
    AssetId, Gas, Value, ValueEvm, XBICheckOutStatus, XBIInstr, XBIInstrView,
    XBINotificationKind,
};
use crate::xtx::{XExecSignal, XExecSignalView};
use vstd::prelude::*;

verus! {

/// An event of the Circuit.
#[derive(Debug, PartialEq, Eq)]
pub enum Event {
    /// The bus finished a transfer.
    Transfer(AccountId, AccountId32, AccountId32, Value),
    /// The bus finished a transfer of assets.
    TransferAssets(AccountId, AssetId, AccountId32, AccountId32, Value),
    /// The bus finished a transfer of ORML tokens.
    TransferORML(AccountId, AssetId, AccountId32, AccountId32, Value),
    /// The bus added liquidity.
    AddLiquidity(AccountId, AssetId, AssetId, Value, Value, Value),
    /// The bus swapped assets.
    Swap(AccountId, AssetId, AssetId, Value, Value, Value),
    /// The bus finished a native call.
    CallNative(AccountId, Vec<u8>),
    /// The bus finished an EVM call.
    CallEvm(
        AccountId,
        AccountId20,
        AccountId20,
        ValueEvm,
        Vec<u8>,
        Gas,
        ValueEvm,
        Option<ValueEvm>,
        Option<ValueEvm>,
        Vec<(AccountId20, Vec<H256>)>,
    ),
    /// The bus finished a WASM call.
    CallWasm(AccountId, AccountId32, Value, Gas, Option<Value>, Vec<u8>),
    /// The bus finished a custom call.
    CallCustom(AccountId, AccountId32, AccountId32, Value, Vec<u8>, Gas, Vec<u8>),
    /// The bus delivered a notification.
    Notification(AccountId, AccountId32, XBINotificationKind, Vec<u8>, Vec<u8>),
    /// The bus delivered a result.
    Result(AccountId, AccountId32, XBICheckOutStatus, Vec<u8>, Vec<u8>),
    /// A transaction was received and waits for insurance.
    XTransactionReceivedForExec(XExecSignalId),
    /// An executor bonded the insurance of a side effect.
    SideEffectInsuranceReceived(XExecSignalId, AccountId),
    /// A side effect was confirmed.
    SideEffectConfirmed(XExecSignalId),
    /// A transaction is ready for execution.
    XTransactionReadyForExec(XExecSignalId),
    /// A step of a transaction is done.
    XTransactionStepFinishedExec(XExecSignalId),
    /// Every step of a transaction is done.
    XTransactionXtxFinishedExecAllSteps(XExecSignalId),
    /// A transaction was reverted after its timeout.
    XTransactionXtxRevertedAfterTimeOut(XExecSignalId),
    /// New side effects wait for executors.
    NewSideEffectsAvailable(AccountId, XExecSignalId, Vec<SideEffect>, Vec<SideEffectId>),
    /// Side effects are no longer valid.
    CancelledSideEffects(AccountId, XtxId, Vec<SideEffect>),
    /// The steps of a transaction, with their confirmations.
    SideEffectsConfirmed(XtxId, Vec<Vec<FullSideEffect>>),
    /// The escrow moved an amount.
    EscrowTransfer(AccountId, AccountId, Balance),
}


/// Deep view of an [`Event`].
pub enum EventView {
    Transfer(AccountId, AccountId32, AccountId32, Value),
    TransferAssets(AccountId, AssetId, AccountId32, AccountId32, Value),
    TransferORML(AccountId, AssetId, AccountId32, AccountId32, Value),
    AddLiquidity(AccountId, AssetId, AssetId, Value, Value, Value),
    Swap(AccountId, AssetId, AssetId, Value, Value, Value),
    CallNative(AccountId, Seq<u8>),
    CallEvm(
        AccountId,
        AccountId20,
        AccountId20,
        ValueEvm,
        Seq<u8>,
        Gas,
        ValueEvm,
        Option<ValueEvm>,
        Option<ValueEvm>,
        AccessListView,
    ),
    CallWasm(AccountId, AccountId32, Value, Gas, Option<Value>, Seq<u8>),
    CallCustom(AccountId, AccountId32, AccountId32, Value, Seq<u8>, Gas, Seq<u8>),
    Notification(AccountId, AccountId32, XBINotificationKind, Seq<u8>, Seq<u8>),
    Result(AccountId, AccountId32, XBICheckOutStatus, Seq<u8>, Seq<u8>),
    XTransactionReceivedForExec(XExecSignalId),
    SideEffectInsuranceReceived(XExecSignalId, AccountId),
    SideEffectConfirmed(XExecSignalId),
    XTransactionReadyForExec(XExecSignalId),
    XTransactionStepFinishedExec(XExecSignalId),
    XTransactionXtxFinishedExecAllSteps(XExecSignalId),
    XTransactionXtxRevertedAfterTimeOut(XExecSignalId),
    NewSideEffectsAvailable(AccountId, XExecSignalId, Seq<SideEffectView>, Seq<SideEffectId>),
    CancelledSideEffects(AccountId, XtxId, Seq<SideEffectView>),
    SideEffectsConfirmed(XtxId, StepsView),
    EscrowTransfer(AccountId, AccountId, Balance),
}

impl DeepView for Event {
    type V = EventView;

    open spec fn deep_view(&self) -> EventView {
        match *self {
            Event::Transfer(a, b, c, d) => EventView::Transfer(a, b, c, d),
            Event::TransferAssets(a, b, c, d, e) => EventView::TransferAssets(a, b, c, d, e),
            Event::TransferORML(a, b, c, d, e) => EventView::TransferORML(a, b, c, d, e),
            Event::AddLiquidity(a, b, c, d, e, f) => EventView::AddLiquidity(a, b, c, d, e, f),
            Event::Swap(a, b, c, d, e, f) => EventView::Swap(a, b, c, d, e, f),
            Event::CallNative(a, payload) => EventView::CallNative(a, payload@),
            Event::CallEvm(a, b, c, d, input, f, g, h, i, list) => EventView::CallEvm(
                a,
                b,
                c,
                d,
                input@,
                f,
                g,
                h,
                i,
                access_list_view(list@),
            ),
            Event::CallWasm(a, b, c, d, e, data) => EventView::CallWasm(a, b, c, d, e, data@),
            Event::CallCustom(a, b, c, d, input, f, extra) => EventView::CallCustom(
                a,
                b,
                c,
                d,
                input@,
                f,
                extra@,
            ),
            Event::Notification(a, b, c, id, extra) => EventView::Notification(
                a,
                b,
                c,
                id@,
                extra@,
            ),
            Event::Result(a, b, c, output, witness) => EventView::Result(
                a,
                b,
                c,
                output@,
                witness@,
            ),
            Event::XTransactionReceivedForExec(id) => EventView::XTransactionReceivedForExec(id),
            Event::SideEffectInsuranceReceived(id, a) => EventView::SideEffectInsuranceReceived(
                id,
                a,
            ),
            Event::SideEffectConfirmed(id) => EventView::SideEffectConfirmed(id),
            Event::XTransactionReadyForExec(id) => EventView::XTransactionReadyForExec(id),
            Event::XTransactionStepFinishedExec(id) => EventView::XTransactionStepFinishedExec(
                id,
            ),
            Event::XTransactionXtxFinishedExecAllSteps(
                id,
            ) => EventView::XTransactionXtxFinishedExecAllSteps(id),
            Event::XTransactionXtxRevertedAfterTimeOut(
                id,
            ) => EventView::XTransactionXtxRevertedAfterTimeOut(id),
            Event::NewSideEffectsAvailable(a, id, sfx, ids) => EventView::NewSideEffectsAvailable(
                a,
                id,
                sfx.deep_view(),
                ids@,
            ),
            Event::CancelledSideEffects(a, id, sfx) => EventView::CancelledSideEffects(
                a,
                id,
                sfx.deep_view(),
            ),
            Event::SideEffectsConfirmed(id, steps) => EventView::SideEffectsConfirmed(
                id,
                steps.deep_view(),
            ),
            Event::EscrowTransfer(a, b, c) => EventView::EscrowTransfer(a, b, c),
        }
    }
}

/// The identifiers of some side effects, in their order.
pub open spec fn side_effect_ids(s: Seq<SideEffectView>) -> Seq<SideEffectId> {
    Seq::new(s.len(), |i: int| side_effect_id(s[i]))
}

/// The events that announce new side effects: one, if there are any.
pub open spec fn admission_events(
    xtx_id: XExecSignalId,
    account: AccountId,
    side_effects: Seq<SideEffectView>,
) -> Seq<EventView> {
    if side_effects.len() > 0 {
        seq![
            EventView::NewSideEffectsAvailable(
                account,
                xtx_id,
                side_effects,
                side_effect_ids(side_effects),
            ),
        ]
    } else {
        Seq::empty()
    }
}

/// The events that tell where a transaction stands: one for its status, if the
/// status has one.
pub open spec fn lifecycle_events(status: CircuitStatus, xtx_id: XExecSignalId) -> Seq<EventView> {
    match status {
        CircuitStatus::PendingInsurance => seq![EventView::XTransactionReceivedForExec(xtx_id)],
        CircuitStatus::Ready => seq![EventView::XTransactionReadyForExec(xtx_id)],
        CircuitStatus::Finished => seq![EventView::XTransactionStepFinishedExec(xtx_id)],
        CircuitStatus::FinishedAllSteps => seq![
            EventView::XTransactionXtxFinishedExecAllSteps(xtx_id),
        ],
        CircuitStatus::RevertTimedOut => seq![
            EventView::XTransactionXtxRevertedAfterTimeOut(xtx_id),
        ],
        _ => Seq::empty(),
    }
}

/// The events that show the steps of a transaction: one, once the transaction
/// has reached `PendingExecution`, if the steps are given.
pub open spec fn confirmation_events(
    status: CircuitStatus,
    xtx_id: XExecSignalId,
    maybe_steps: Option<StepsView>,
) -> Seq<EventView> {
    if status.rank() >= CircuitStatus::PendingExecution.rank() && maybe_steps is Some {
        seq![EventView::SideEffectsConfirmed(xtx_id, maybe_steps->Some_0)]
    } else {
        Seq::empty()
    }
}

/// The events of one handler, in the order in which they are published: new
/// side effects first, then the status of the transaction, then its steps.
pub open spec fn emitted(
    xtx_id: XExecSignalId,
    maybe_xtx: Option<XExecSignalView>,
    account: AccountId,
    side_effects: Seq<SideEffectView>,
    maybe_steps: Option<StepsView>,
) -> Seq<EventView> {
    admission_events(xtx_id, account, side_effects) + (match maybe_xtx {
        Some(xtx) => lifecycle_events(xtx.status, xtx_id) + confirmation_events(
            xtx.status,
            xtx_id,
            maybe_steps,
        ),
        None => Seq::empty(),
    })
}

/// The identifiers of some side effects, in their order.
pub fn generate_ids(side_effects: &Vec<SideEffect>) -> (r: Vec<SideEffectId>)
    requires
        bundle_encodable(side_effects.deep_view()),
    ensures
        r@ == side_effect_ids(side_effects.deep_view()),
{
    let mut ids: Vec<SideEffectId> = Vec::new();
    let mut i: usize = 0;
    while i < side_effects.len()
        invariant
            i <= side_effects.len(),
            ids@.len() == i,
            bundle_encodable(side_effects.deep_view()),
            forall|k: int|
                0 <= k < i ==> ids@[k] == side_effect_id(side_effects.deep_view()[k]),
        decreases side_effects.len() - i,
    {
        assert(side_effects.deep_view()[i as int] == side_effects@[i as int].deep_view());
        assert(crate::identity::encodable(side_effects.deep_view()[i as int]));
        ids.push(side_effects[i].generate_id());
        i += 1;
    }
    assert(ids@ =~= side_effect_ids(side_effects.deep_view()));
    ids
}

/// The events that a handler publishes for a transaction: what `emitted` says,
/// in that order.
pub fn emit(
    xtx_id: XExecSignalId,
    maybe_xtx: Option<XExecSignal>,
    subjected_account: &AccountId,
    side_effects: &Vec<SideEffect>,
    maybe_full_side_effects: Option<Vec<Vec<FullSideEffect>>>,
) -> (r: Vec<Event>)
    requires
        bundle_encodable(side_effects.deep_view()),
    ensures
        r.deep_view() == emitted(
            xtx_id,
            maybe_xtx.deep_view(),
            *subjected_account,
            side_effects.deep_view(),
            maybe_full_side_effects.deep_view(),
        ),
{
    let ghost expected = emitted(
        xtx_id,
        maybe_xtx.deep_view(),
        *subjected_account,
        side_effects.deep_view(),
        maybe_full_side_effects.deep_view(),
    );
    let mut events: Vec<Event> = Vec::new();
    if side_effects.len() > 0 {
        events.push(
            Event::NewSideEffectsAvailable(
                *subjected_account,
                xtx_id,
                clone_side_effects(side_effects),
                generate_ids(side_effects),
            ),
        );
    }
    assert(events.deep_view() =~= admission_events(
        xtx_id,
        *subjected_account,
        side_effects.deep_view(),
    ));
    if let Some(xtx) = maybe_xtx {
        let ghost head = events.deep_view();
        match xtx.status {
            CircuitStatus::PendingInsurance => {
                events.push(Event::XTransactionReceivedForExec(xtx_id));
            },
            CircuitStatus::Ready => {
                events.push(Event::XTransactionReadyForExec(xtx_id));
            },
            CircuitStatus::Finished => {
                events.push(Event::XTransactionStepFinishedExec(xtx_id));
            },
            CircuitStatus::FinishedAllSteps => {
                events.push(Event::XTransactionXtxFinishedExecAllSteps(xtx_id));
            },
            CircuitStatus::RevertTimedOut => {
                events.push(Event::XTransactionXtxRevertedAfterTimeOut(xtx_id));
            },
            _ => {},
        }
        assert(events.deep_view() =~= head + lifecycle_events(xtx.status, xtx_id));
        let ghost middle = events.deep_view();
        if xtx.status.ordinal() >= 4 {
            if let Some(full_side_effects) = maybe_full_side_effects {
                events.push(Event::SideEffectsConfirmed(xtx_id, full_side_effects));
            }
        }
        assert(events.deep_view() =~= middle + confirmation_events(
            xtx.status,
            xtx_id,
            maybe_full_side_effects.deep_view(),
        ));
        assert(events.deep_view() =~= expected);
    } else {
        assert(events.deep_view() =~= expected);
    }
    events
}

/// The event that reports the exit of an order from the bus, by its instruction;
/// none for an instruction that the Circuit does not know.
pub open spec fn exit_event(
    escrow_source: AccountId,
    executor: AccountId,
    instr: XBIInstrView,
) -> Option<EventView> {
    match instr {
        XBIInstrView::CallNative { payload } => Some(EventView::CallNative(escrow_source, payload)),
        XBIInstrView::CallEvm {
            source,
            target,
            value,
            input,
            gas_limit,
            max_fee_per_gas,
            max_priority_fee_per_gas,
            nonce,
            access_list,
        } => Some(
            EventView::CallEvm(
                escrow_source,
                source,
                target,
                value,
                input,
                gas_limit,
                max_fee_per_gas,
                max_priority_fee_per_gas,
                nonce,
                access_list,
            ),
        ),
        XBIInstrView::CallWasm { dest, value, gas_limit, storage_deposit_limit, data } => Some(
            EventView::CallWasm(escrow_source, dest, value, gas_limit, storage_deposit_limit, data),
        ),
        XBIInstrView::CallCustom { caller, dest, value, input, limit, additional_params } => Some(
            EventView::CallCustom(
                escrow_source,
                caller,
                dest,
                value,
                input,
                limit,
                additional_params,
            ),
        ),
        XBIInstrView::Transfer { dest, value } => Some(
            EventView::Transfer(escrow_source, executor, dest, value),
        ),
        XBIInstrView::TransferORML { currency_id, dest, value } => Some(
            EventView::TransferORML(escrow_source, currency_id, executor, dest, value),
        ),
        XBIInstrView::TransferAssets { currency_id, dest, value } => Some(
            EventView::TransferAssets(escrow_source, currency_id, executor, dest, value),
        ),
        XBIInstrView::Result { outcome, output, witness } => Some(
            EventView::Result(escrow_source, executor, outcome, output, witness),
        ),
        XBIInstrView::Notification { kind, instruction_id, extra } => Some(
            EventView::Notification(escrow_source, executor, kind, instruction_id, extra),
        ),
        XBIInstrView::Unknown { .. } => None,
    }
}

/// The event that reports the exit of an order from the bus.
pub fn xbi_exit_event(escrow_source: &AccountId, executor: &AccountId, instr: &XBIInstr) -> (r:
    Option<Event>)
    ensures
        r.deep_view() == exit_event(*escrow_source, *executor, instr.deep_view()),
{
    match instr {
        XBIInstr::CallNative { payload } => Some(
            Event::CallNative(*escrow_source, clone_bytes(payload)),
        ),
        XBIInstr::CallEvm {
            source,
            target,
            value,
            input,
            gas_limit,
            max_fee_per_gas,
            max_priority_fee_per_gas,
            nonce,
            access_list,
        } => Some(
            Event::CallEvm(
                *escrow_source,
                *source,
                *target,
                *value,
                clone_bytes(input),
                *gas_limit,
                *max_fee_per_gas,
                *max_priority_fee_per_gas,
                *nonce,
                clone_access_list(access_list),
            ),
        ),
        XBIInstr::CallWasm { dest, value, gas_limit, storage_deposit_limit, data } => Some(
            Event::CallWasm(
                *escrow_source,
                *dest,
                *value,
                *gas_limit,
                *storage_deposit_limit,
                clone_bytes(data),
            ),
        ),
        XBIInstr::CallCustom { caller, dest, value, input, limit, additional_params } => Some(
            Event::CallCustom(
                *escrow_source,
                *caller,
                *dest,
                *value,
                clone_bytes(input),
                *limit,
                clone_bytes(additional_params),
            ),
        ),
        XBIInstr::Transfer { dest, value } => Some(
            Event::Transfer(*escrow_source, *executor, *dest, *value),
        ),
        XBIInstr::TransferORML { currency_id, dest, value } => Some(
            Event::TransferORML(*escrow_source, *currency_id, *executor, *dest, *value),
        ),
        XBIInstr::TransferAssets { currency_id, dest, value } => Some(
            Event::TransferAssets(*escrow_source, *currency_id, *executor, *dest, *value),
        ),
        XBIInstr::Result { outcome, output, witness } => Some(
            Event::Result(
                *escrow_source,
                *executor,
                *outcome,
                clone_bytes(output),
                clone_bytes(witness),
            ),
        ),
        XBIInstr::Notification { kind, instruction_id, extra } => Some(
            Event::Notification(
                *escrow_source,
                *executor,
                *kind,
                clone_bytes(instruction_id),
                clone_bytes(extra),
            ),
        ),
        XBIInstr::Unknown { .. } => None,
    }
}

} // verus!
