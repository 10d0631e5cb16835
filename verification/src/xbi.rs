//! The plain data of the asynchronous execution bus: what an order to the bus
//! holds, as far as the Circuit reads it.
use crate::primitives::{AccountId, H256};
use vstd::prelude::*;

verus! {

/// A 20-byte account of an EVM chain.
pub type AccountId20 = [u8; 20];

/// A 32-byte account.
pub type AccountId32 = [u8; 32];

/// Identifier of an asset.
pub type AssetId = u64;

/// An amount.
pub type Value = u128;

/// An amount of an EVM chain: 256 bits, most significant byte first.
pub type ValueEvm = [u8; 32];

/// An amount of gas.
pub type Gas = u64;

/// What the bus knows of an order.
#[derive(Clone, Copy, Debug, PartialEq, Eq, Structural)]
pub enum XBIStatus {
    /// The bus has never seen the identifier.
    UnknownId,
    /// The order is checked in and waits for its result.
    Sent,
    /// The result is there.
    Resolved,
}

/// Kind of a notification of the bus.
#[derive(Clone, Copy, Debug, PartialEq, Eq, Structural)]
pub enum XBINotificationKind {
    Sent,
    Delivered,
    Executed,
}

/// How an order ended.
#[derive(Clone, Copy, Debug, PartialEq, Eq, Structural)]
pub enum XBICheckOutStatus {
    SuccessfullyExecuted,
    ErrorFailedExecution,
    ErrorFailedXCMDispatch,
    ErrorDeliveryTimeout,
    ErrorExecutionTimeout,
}

/// The instruction of an order.
#[allow(inconsistent_fields)]
#[derive(Debug, PartialEq, Eq)]
pub enum XBIInstr {
    Unknown { identifier: u8, params: Vec<u8> },
    CallNative { payload: Vec<u8> },
    CallEvm {
        source: AccountId20,
        target: AccountId20,
        value: ValueEvm,
        input: Vec<u8>,
        gas_limit: Gas,
        max_fee_per_gas: ValueEvm,
        max_priority_fee_per_gas: Option<ValueEvm>,
        nonce: Option<ValueEvm>,
        access_list: Vec<(AccountId20, Vec<H256>)>,
    },
    CallWasm {
        dest: AccountId32,
        value: Value,
        gas_limit: Gas,
        storage_deposit_limit: Option<Value>,
        data: Vec<u8>,
    },
    CallCustom {
        caller: AccountId32,
        dest: AccountId32,
        value: Value,
        input: Vec<u8>,
        limit: Gas,
        additional_params: Vec<u8>,
    },
    Transfer { dest: AccountId32, value: Value },
    TransferORML { currency_id: AssetId, dest: AccountId32, value: Value },
    TransferAssets { currency_id: AssetId, dest: AccountId32, value: Value },
    Result { outcome: XBICheckOutStatus, output: Vec<u8>, witness: Vec<u8> },
    Notification { kind: XBINotificationKind, instruction_id: Vec<u8>, extra: Vec<u8> },
}

/// An access list in its deep view.
pub type AccessListView = Seq<(AccountId20, Seq<H256>)>;

/// Deep view of an [`XBIInstr`].
#[allow(inconsistent_fields)]
pub enum XBIInstrView {
    Unknown { identifier: u8, params: Seq<u8> },
    CallNative { payload: Seq<u8> },
    CallEvm {
        source: AccountId20,
        target: AccountId20,
        value: ValueEvm,
        input: Seq<u8>,
        gas_limit: Gas,
        max_fee_per_gas: ValueEvm,
        max_priority_fee_per_gas: Option<ValueEvm>,
        nonce: Option<ValueEvm>,
        access_list: AccessListView,
    },
    CallWasm {
        dest: AccountId32,
        value: Value,
        gas_limit: Gas,
        storage_deposit_limit: Option<Value>,
        data: Seq<u8>,
    },
    CallCustom {
        caller: AccountId32,
        dest: AccountId32,
        value: Value,
        input: Seq<u8>,
        limit: Gas,
        additional_params: Seq<u8>,
    },
    Transfer { dest: AccountId32, value: Value },
    TransferORML { currency_id: AssetId, dest: AccountId32, value: Value },
    TransferAssets { currency_id: AssetId, dest: AccountId32, value: Value },
    Result { outcome: XBICheckOutStatus, output: Seq<u8>, witness: Seq<u8> },
    Notification { kind: XBINotificationKind, instruction_id: Seq<u8>, extra: Seq<u8> },
}

/// The deep view of an access list.
pub open spec fn access_list_view(list: Seq<(AccountId20, Vec<H256>)>) -> AccessListView {
    Seq::new(list.len(), |i: int| (list[i].0, list[i].1@))
}

impl DeepView for XBIInstr {
    type V = XBIInstrView;

    open spec fn deep_view(&self) -> XBIInstrView {
        match *self {
            XBIInstr::Unknown { identifier, params } => XBIInstrView::Unknown {
                identifier,
                params: params@,
            },
            XBIInstr::CallNative { payload } => XBIInstrView::CallNative { payload: payload@ },
            XBIInstr::CallEvm {
                source,
                target,
                value,
                input,
                gas_limit,
                max_fee_per_gas,
                max_priority_fee_per_gas,
                nonce,
                access_list,
            } => XBIInstrView::CallEvm {
                source,
                target,
                value,
                input: input@,
                gas_limit,
                max_fee_per_gas,
                max_priority_fee_per_gas,
                nonce,
                access_list: access_list_view(access_list@),
            },
            XBIInstr::CallWasm {
                dest,
                value,
                gas_limit,
                storage_deposit_limit,
                data,
            } => XBIInstrView::CallWasm {
                dest,
                value,
                gas_limit,
                storage_deposit_limit,
                data: data@,
            },
            XBIInstr::CallCustom {
                caller,
                dest,
                value,
                input,
                limit,
                additional_params,
            } => XBIInstrView::CallCustom {
                caller,
                dest,
                value,
                input: input@,
                limit,
                additional_params: additional_params@,
            },
            XBIInstr::Transfer { dest, value } => XBIInstrView::Transfer { dest, value },
            XBIInstr::TransferORML { currency_id, dest, value } => XBIInstrView::TransferORML {
                currency_id,
                dest,
                value,
            },
            XBIInstr::TransferAssets {
                currency_id,
                dest,
                value,
            } => XBIInstrView::TransferAssets { currency_id, dest, value },
            XBIInstr::Result { outcome, output, witness } => XBIInstrView::Result {
                outcome,
                output: output@,
                witness: witness@,
            },
            XBIInstr::Notification { kind, instruction_id, extra } => XBIInstrView::Notification {
                kind,
                instruction_id: instruction_id@,
                extra: extra@,
            },
        }
    }
}

/// Copies a list of hashes.
pub fn clone_hashes(list: &Vec<H256>) -> (r: Vec<H256>)
    ensures
        r@ == list@,
{
    let mut out: Vec<H256> = Vec::new();
    let mut i: usize = 0;
    while i < list.len()
        invariant
            i <= list.len(),
            out@ == list@.take(i as int),
        decreases list.len() - i,
    {
        out.push(list[i]);
        assert(out@ =~= list@.take(i + 1));
        i += 1;
    }
    assert(list@.take(list.len() as int) =~= list@);
    out
}

/// Copies an access list.
pub fn clone_access_list(list: &Vec<(AccountId20, Vec<H256>)>) -> (r: Vec<
    (AccountId20, Vec<H256>),
>)
    ensures
        access_list_view(r@) == access_list_view(list@),
{
    let mut out: Vec<(AccountId20, Vec<H256>)> = Vec::new();
    let mut i: usize = 0;
    while i < list.len()
        invariant
            i <= list.len(),
            out@.len() == i,
            forall|k: int|
                0 <= k < i ==> out@[k].0 == list@[k].0 && out@[k].1@ == list@[k].1@,
        decreases list.len() - i,
    {
        let keys = clone_hashes(&list[i].1);
        out.push((list[i].0, keys));
        i += 1;
    }
    assert(access_list_view(out@) =~= access_list_view(list@));
    out
}

/// What travels with an order: who sent it, where to, and what it may cost.
#[derive(Clone, Copy, Debug, PartialEq, Eq)]
pub struct XBIMetadata {
    /// Identifier of the order: that of the side effect it carries.
    pub id: H256,
    /// Parachain that executes the order.
    pub dest_para_id: u32,
    /// Parachain that sends it.
    pub src_para_id: u32,
    /// The most that its execution may cost.
    pub max_exec_cost: Value,
    /// The most that its notifications may cost.
    pub max_notifications_cost: Value,
    /// Account that stands behind the order, if it is known.
    pub maybe_known_origin: Option<AccountId>,
}

impl XBIMetadata {
    /// The metadata of an order, with the timeouts that the bus gives by default.
    pub fn new_with_default_timeouts(
        id: H256,
        dest_para_id: u32,
        src_para_id: u32,
        max_exec_cost: Value,
        max_notifications_cost: Value,
        maybe_known_origin: Option<AccountId>,
    ) -> (r: Self)
        ensures
            r == (XBIMetadata {
                id,
                dest_para_id,
                src_para_id,
                max_exec_cost,
                max_notifications_cost,
                maybe_known_origin,
            }),
    {
        XBIMetadata {
            id,
            dest_para_id,
            src_para_id,
            max_exec_cost,
            max_notifications_cost,
            maybe_known_origin,
        }
    }
}

/// An order to the bus.
#[derive(Debug, PartialEq, Eq)]
pub struct XBIFormat {
    pub instr: XBIInstr,
    pub metadata: XBIMetadata,
}

/// Deep view of an [`XBIFormat`].
pub struct XBIFormatView {
    pub instr: XBIInstrView,
    pub metadata: XBIMetadata,
}

impl DeepView for XBIFormat {
    type V = XBIFormatView;

    open spec fn deep_view(&self) -> XBIFormatView {
        XBIFormatView { instr: self.instr.deep_view(), metadata: self.metadata }
    }
}

/// An order as the bus recorded it when it left.
#[derive(Debug, PartialEq, Eq)]
pub struct XBICheckIn {
    pub xbi: XBIFormat,
    pub notification_delivery_timeout: u32,
    pub notification_execution_timeout: u32,
}

/// Deep view of an [`XBICheckIn`].
pub struct XBICheckInView {
    pub xbi: XBIFormatView,
    pub notification_delivery_timeout: u32,
    pub notification_execution_timeout: u32,
}

impl DeepView for XBICheckIn {
    type V = XBICheckInView;

    open spec fn deep_view(&self) -> XBICheckInView {
        XBICheckInView {
            xbi: self.xbi.deep_view(),
            notification_delivery_timeout: self.notification_delivery_timeout,
            notification_execution_timeout: self.notification_execution_timeout,
        }
    }
}

/// What the bus recorded when the result of an order came back.
#[derive(Debug, PartialEq, Eq)]
pub struct XBICheckOut {
    pub xbi: XBIInstr,
    pub resolution_status: XBICheckOutStatus,
    pub checkout_timeout: u32,
    pub actual_execution_cost: Value,
    pub actual_delivery_cost: Value,
    pub actual_aggregated_cost: Value,
}

} // verus!
