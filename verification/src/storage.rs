//! The storage projection: the eight stores of the Circuit, and the two phases
//! that read and write them as a group.
//!
//! `setup` materialises the working copy of an execution transaction; `apply` is
//! the only writer. Both are stated over the deep view of the stores, a ghost
//! value made of maps.
use crate::error::Error;
use crate::primitives::{
    clone_steps, AccountId, Balance, BlockNumber, FullSideEffect, LocalState, SideEffectId,
    StepsView, XtxId, H256,
};
use crate::signal::ExecutionSignal;
use crate::status::{CircuitStatus, Deposits, InsuranceDeposit};
use crate::table::{has_key, slots_drop, slots_put, Table};
use crate::xtx::{fresh_xtx, LocalXtxCtx, LocalXtxCtxView, XExecSignal, XExecSignalView};
use crate::identity::{steps_encodable, xtx_id_of};
use vstd::prelude::*;

verus! {

/// The persistent state of the Circuit.
#[derive(Clone, Debug, PartialEq, Eq)]
pub struct Stores {
    /// Execution transactions, by identifier.
    pub x_exec_signals: Table<XtxId, XExecSignal>,
    /// The steps of each execution transaction.
    pub full_side_effects: Table<XtxId, Vec<Vec<FullSideEffect>>>,
    /// The local state of each execution transaction.
    pub local_xtx_states: Table<XtxId, LocalState>,
    /// Insurance deposits, by execution transaction and side effect.
    pub insurance_deposits: Table<(XtxId, SideEffectId), InsuranceDeposit>,
    /// The side effects of each execution transaction that have a deposit.
    pub xtx_insurance_links: Table<XtxId, Vec<SideEffectId>>,
    /// The execution transaction of each side effect that executes locally.
    pub local_side_effect_to_xtx_id_links: Table<SideEffectId, XtxId>,
    /// The block at which each execution transaction under way times out.
    pub active_x_exec_signals_timing_links: Table<XtxId, BlockNumber>,
    /// Signals that wait for the next block, oldest first.
    pub signal_queue: Vec<(AccountId, ExecutionSignal)>,
}

/// Deep view of the [`Stores`].
pub struct StoresView {
    pub x_exec_signals: Map<XtxId, XExecSignalView>,
    pub full_side_effects: Map<XtxId, StepsView>,
    pub local_xtx_states: Map<XtxId, Seq<(H256, Seq<u8>)>>,
    pub insurance_deposits: Map<(XtxId, SideEffectId), InsuranceDeposit>,
    pub xtx_insurance_links: Map<XtxId, Seq<SideEffectId>>,
    pub local_side_effect_to_xtx_id_links: Map<SideEffectId, XtxId>,
    pub active_x_exec_signals_timing_links: Seq<(XtxId, BlockNumber)>,
    pub signal_queue: Seq<(AccountId, ExecutionSignal)>,
}

/// A map with each value replaced by its deep view.
pub open spec fn deep_map<K, V: DeepView>(m: Map<K, V>) -> Map<K, V::V> {
    Map::new(|k: K| m.contains_key(k), |k: K| m[k].deep_view())
}

/// A map with each value replaced by its view.
pub open spec fn view_map<K, V: View>(m: Map<K, V>) -> Map<K, V::V> {
    Map::new(|k: K| m.contains_key(k), |k: K| m[k]@)
}

/// The deep view of a map follows an insertion.
pub proof fn lemma_deep_map_insert<K, V: DeepView>(m: Map<K, V>, k: K, v: V)
    ensures
        deep_map(m.insert(k, v)) == deep_map(m).insert(k, v.deep_view()),
{
    assert(deep_map(m.insert(k, v)) =~= deep_map(m).insert(k, v.deep_view()));
}

/// The view of a map follows an insertion.
pub proof fn lemma_view_map_insert<K, V: View>(m: Map<K, V>, k: K, v: V)
    ensures
        view_map(m.insert(k, v)) == view_map(m).insert(k, v@),
{
    assert(view_map(m.insert(k, v)) =~= view_map(m).insert(k, v@));
}

impl DeepView for Stores {
    type V = StoresView;

    open spec fn deep_view(&self) -> StoresView {
        StoresView {
            x_exec_signals: deep_map(self.x_exec_signals.map()),
            full_side_effects: deep_map(self.full_side_effects.map()),
            local_xtx_states: deep_map(self.local_xtx_states.map()),
            insurance_deposits: self.insurance_deposits.map(),
            xtx_insurance_links: view_map(self.xtx_insurance_links.map()),
            local_side_effect_to_xtx_id_links: self.local_side_effect_to_xtx_id_links.map(),
            active_x_exec_signals_timing_links: self.active_x_exec_signals_timing_links.slots(),
            signal_queue: self.signal_queue@,
        }
    }
}

/// The identifiers of the side effects that have a deposit, in their order.
pub open spec fn deposit_ids(deposits: Deposits) -> Seq<SideEffectId> {
    Seq::new(deposits.len(), |i: int| deposits[i].0)
}

/// The deposits that the links of a transaction name, in the order of the links.
pub open spec fn linked_deposits(
    rows: Map<(XtxId, SideEffectId), InsuranceDeposit>,
    id: XtxId,
    links: Seq<SideEffectId>,
) -> Deposits {
    Seq::new(links.len(), |i: int| (links[i], rows[(id, links[i])]))
}

/// Every link of a transaction has its deposit.
pub open spec fn links_resolve(
    rows: Map<(XtxId, SideEffectId), InsuranceDeposit>,
    id: XtxId,
    links: Seq<SideEffectId>,
) -> bool {
    forall|i: int| 0 <= i < links.len() ==> rows.contains_key((id, #[trigger] links[i]))
}

/// The links of a transaction; none where the store has no entry.
pub open spec fn links_of(s: StoresView, id: XtxId) -> Seq<SideEffectId> {
    if s.xtx_insurance_links.contains_key(id) {
        s.xtx_insurance_links[id]
    } else {
        Seq::empty()
    }
}

/// The working copy of a transaction that was just requested.
pub open spec fn fresh_ctx(requester: AccountId, reward: Balance, timeouts_at: BlockNumber) -> LocalXtxCtxView {
    LocalXtxCtxView {
        local_state: Seq::empty(),
        xtx_id: xtx_id_of(requester, timeouts_at),
        xtx: fresh_xtx(requester, timeouts_at, None, Some(reward)),
        insurance_deposits: Seq::empty(),
        full_side_effects: Seq::empty(),
    }
}

/// The stored status of a transaction fits the status with which it is entered:
/// an entry for a finished transaction finds it finished, and an entry for a
/// transaction in execution finds it ready at least.
pub open spec fn entry_fits(entry: CircuitStatus, stored: CircuitStatus) -> bool {
    match entry {
        CircuitStatus::Finished => stored.rank() >= CircuitStatus::Finished.rank(),
        CircuitStatus::PendingExecution => stored.rank() >= CircuitStatus::Ready.rank(),
        _ => true,
    }
}

/// What `setup` returns: for `Requested` a fresh working copy, unless the given
/// identifier is taken; for any other status the stored transaction with its
/// deposits, steps and local state.
pub open spec fn setup_spec(
    s: StoresView,
    current_status: CircuitStatus,
    requester: AccountId,
    reward: Balance,
    xtx_id: Option<XtxId>,
    now: BlockNumber,
    timeout: BlockNumber,
) -> Result<LocalXtxCtxView, Error> {
    if current_status is Requested {
        if xtx_id is Some && s.x_exec_signals.contains_key(xtx_id->Some_0) {
            Err(Error::SetupFailedDuplicatedXtx)
        } else {
            Ok(fresh_ctx(requester, reward, (timeout + now) as u32))
        }
    } else if xtx_id is None {
        Err(Error::SetupFailedEmptyXtx)
    } else {
        let id = xtx_id->Some_0;
        if !s.x_exec_signals.contains_key(id) {
            Err(Error::SetupFailedUnknownXtx)
        } else if !entry_fits(current_status, s.x_exec_signals[id].status) {
            Err(Error::SetupFailedIncorrectXtxStatus)
        } else if !links_resolve(s.insurance_deposits, id, links_of(s, id))
            || !s.full_side_effects.contains_key(id) || !s.local_xtx_states.contains_key(id) {
            Err(Error::SetupFailedXtxStorageArtifactsNotFound)
        } else {
            Ok(
                LocalXtxCtxView {
                    local_state: s.local_xtx_states[id],
                    xtx_id: id,
                    xtx: s.x_exec_signals[id],
                    insurance_deposits: linked_deposits(s.insurance_deposits, id, links_of(s, id)),
                    full_side_effects: s.full_side_effects[id],
                },
            )
        }
    }
}

/// The local index after every identifier of `ids` is linked to a transaction.
pub open spec fn link_all(
    m: Map<SideEffectId, XtxId>,
    ids: Seq<SideEffectId>,
    xtx_id: XtxId,
) -> Map<SideEffectId, XtxId>
    decreases ids.len(),
{
    if ids.len() == 0 {
        m
    } else {
        link_all(m, ids.drop_last(), xtx_id).insert(ids.last(), xtx_id)
    }
}

/// The deposit rows after the deposits of a transaction are written, in their order.
pub open spec fn deposit_all(
    m: Map<(XtxId, SideEffectId), InsuranceDeposit>,
    xtx_id: XtxId,
    deposits: Deposits,
) -> Map<(XtxId, SideEffectId), InsuranceDeposit>
    decreases deposits.len(),
{
    if deposits.len() == 0 {
        m
    } else {
        deposit_all(m, xtx_id, deposits.drop_last()).insert(
            (xtx_id, deposits.last().0),
            deposits.last().1,
        )
    }
}

/// The status of the working copy after `apply`: a transaction that waited for
/// insurance takes the new status.
pub open spec fn applied_status(ctx_status: CircuitStatus, change: (CircuitStatus, CircuitStatus)) -> CircuitStatus {
    if change.0 is PendingInsurance && change.0 != change.1 {
        change.1
    } else {
        ctx_status
    }
}

/// The working copy after `apply`.
pub open spec fn applied_ctx(ctx: LocalXtxCtxView, change: (CircuitStatus, CircuitStatus)) -> LocalXtxCtxView {
    LocalXtxCtxView {
        xtx: XExecSignalView { status: applied_status(ctx.xtx.status, change), ..ctx.xtx },
        ..ctx
    }
}

/// The timing links after the transaction of `ctx` is written: a transaction
/// that is over loses its link.
pub open spec fn links_after_write(
    links: Seq<(XtxId, BlockNumber)>,
    ctx: LocalXtxCtxView,
) -> Seq<(XtxId, BlockNumber)> {
    if ctx.xtx.status.is_terminal() {
        slots_drop(links, ctx.xtx_id)
    } else {
        links
    }
}

/// The stores after `apply` has written the working copy `ctx`, by the old status:
/// - `Requested`: the whole bundle: steps, local index, deposits and their links,
///   local state, timing link, transaction;
/// - `PendingInsurance`: the given deposit, and the transaction if its status moved;
/// - `Ready`, `Bonded`, `PendingExecution`, `Finished`: steps and transaction;
/// - `FinishedAllSteps` and the revert family: the transaction.
///
/// Whenever the transaction that is written is over, its timing link goes.
pub open spec fn applied_stores(
    s: StoresView,
    ctx: LocalXtxCtxView,
    insurance: Option<(SideEffectId, InsuranceDeposit)>,
    local_ids: Seq<SideEffectId>,
    change: (CircuitStatus, CircuitStatus),
) -> StoresView {
    let id = ctx.xtx_id;
    match change.0 {
        CircuitStatus::Requested => StoresView {
            full_side_effects: s.full_side_effects.insert(id, ctx.full_side_effects),
            local_side_effect_to_xtx_id_links: link_all(
                s.local_side_effect_to_xtx_id_links,
                local_ids,
                id,
            ),
            insurance_deposits: deposit_all(s.insurance_deposits, id, ctx.insurance_deposits),
            xtx_insurance_links: s.xtx_insurance_links.insert(
                id,
                deposit_ids(ctx.insurance_deposits),
            ),
            local_xtx_states: s.local_xtx_states.insert(id, ctx.local_state),
            active_x_exec_signals_timing_links: if ctx.xtx.status.is_terminal() {
                slots_drop(s.active_x_exec_signals_timing_links, id)
            } else {
                slots_put(s.active_x_exec_signals_timing_links, id, ctx.xtx.timeouts_at)
            },
            x_exec_signals: s.x_exec_signals.insert(id, ctx.xtx),
            ..s
        },
        CircuitStatus::PendingInsurance => StoresView {
            insurance_deposits: match insurance {
                Some(pair) => s.insurance_deposits.insert((id, pair.0), pair.1),
                None => s.insurance_deposits,
            },
            x_exec_signals: if change.0 != change.1 {
                s.x_exec_signals.insert(id, ctx.xtx)
            } else {
                s.x_exec_signals
            },
            active_x_exec_signals_timing_links: if change.0 != change.1 {
                links_after_write(s.active_x_exec_signals_timing_links, ctx)
            } else {
                s.active_x_exec_signals_timing_links
            },
            ..s
        },
        CircuitStatus::Ready
        | CircuitStatus::Bonded
        | CircuitStatus::PendingExecution
        | CircuitStatus::Finished => StoresView {
            full_side_effects: s.full_side_effects.insert(id, ctx.full_side_effects),
            x_exec_signals: s.x_exec_signals.insert(id, ctx.xtx),
            active_x_exec_signals_timing_links: links_after_write(
                s.active_x_exec_signals_timing_links,
                ctx,
            ),
            ..s
        },
        CircuitStatus::FinishedAllSteps
        | CircuitStatus::RevertTimedOut
        | CircuitStatus::RevertMisbehaviour
        | CircuitStatus::Reverted
        | CircuitStatus::RevertKill => StoresView {
            x_exec_signals: s.x_exec_signals.insert(id, ctx.xtx),
            active_x_exec_signals_timing_links: slots_drop(
                s.active_x_exec_signals_timing_links,
                id,
            ),
            ..s
        },
    }
}

/// The transaction that `apply` returns: the one it wrote, if it wrote one and,
/// for a transaction that executes, if that one is past `Ready`.
pub open spec fn applied_xtx(ctx: LocalXtxCtxView, change: (CircuitStatus, CircuitStatus)) -> Option<XExecSignalView> {
    match change.0 {
        CircuitStatus::PendingInsurance => if change.0 != change.1 {
            Some(ctx.xtx)
        } else {
            None
        },
        CircuitStatus::Ready
        | CircuitStatus::Bonded
        | CircuitStatus::PendingExecution
        | CircuitStatus::Finished => if ctx.xtx.status.rank() > CircuitStatus::Ready.rank() {
            Some(ctx.xtx)
        } else {
            None
        },
        _ => Some(ctx.xtx),
    }
}

/// The steps that `apply` returns: those of the working copy, unless the
/// transaction waited for insurance.
pub open spec fn applied_steps(ctx: LocalXtxCtxView, change: (CircuitStatus, CircuitStatus)) -> Option<StepsView> {
    match change.0 {
        CircuitStatus::PendingInsurance => None,
        _ => Some(ctx.full_side_effects),
    }
}

/// Every side effect in the stored steps can be encoded.
pub open spec fn stored_encodable(s: StoresView) -> bool {
    forall|id: XtxId| #[trigger]
        s.full_side_effects.contains_key(id) ==> steps_encodable(s.full_side_effects[id])
}

/// `apply` keeps the stored side effects such as can be encoded, where those of
/// the working copy are.
pub proof fn lemma_applied_encodable(
    s: StoresView,
    ctx: LocalXtxCtxView,
    insurance: Option<(SideEffectId, InsuranceDeposit)>,
    local_ids: Seq<SideEffectId>,
    change: (CircuitStatus, CircuitStatus),
)
    requires
        stored_encodable(s),
        steps_encodable(ctx.full_side_effects),
    ensures
        stored_encodable(applied_stores(s, ctx, insurance, local_ids, change)),
{
    let after = applied_stores(s, ctx, insurance, local_ids, change);
    assert forall|id: XtxId| #[trigger] after.full_side_effects.contains_key(id) implies steps_encodable(
        after.full_side_effects[id],
    ) by {
        if id != ctx.xtx_id {
            assert(s.full_side_effects.contains_key(id));
        } else if !(after.full_side_effects[id] == ctx.full_side_effects) {
            assert(s.full_side_effects.contains_key(id));
        }
    }
}

/// The view of stores that hold nothing.
pub open spec fn empty_stores() -> StoresView {
    StoresView {
        x_exec_signals: Map::empty(),
        full_side_effects: Map::empty(),
        local_xtx_states: Map::empty(),
        insurance_deposits: Map::empty(),
        xtx_insurance_links: Map::empty(),
        local_side_effect_to_xtx_id_links: Map::empty(),
        active_x_exec_signals_timing_links: Seq::empty(),
        signal_queue: Seq::empty(),
    }
}

/// Tells whether the stored status of a transaction fits the status with which
/// it is entered.
pub fn fits_entry(entry: CircuitStatus, stored: CircuitStatus) -> (r: bool)
    ensures
        r == entry_fits(entry, stored),
{
    match entry {
        CircuitStatus::Finished => stored.ordinal() >= 5,
        CircuitStatus::PendingExecution => stored.ordinal() >= 3,
        _ => true,
    }
}

impl Stores {
    /// Every store holds at most one value per key, and every side effect that
    /// is stored can be encoded.
    pub open spec fn wf(&self) -> bool {
        &&& stored_encodable(self.deep_view())
        &&& self.tables_wf()
    }

    /// Every store holds at most one value per key.
    pub open spec fn tables_wf(&self) -> bool {
        &&& self.x_exec_signals.wf()
        &&& self.full_side_effects.wf()
        &&& self.local_xtx_states.wf()
        &&& self.insurance_deposits.wf()
        &&& self.xtx_insurance_links.wf()
        &&& self.local_side_effect_to_xtx_id_links.wf()
        &&& self.active_x_exec_signals_timing_links.wf()
    }

    /// Empty stores.
    pub fn new() -> (r: Self)
        ensures
            r.wf(),
            r.deep_view() == empty_stores(),
    {
        let r = Stores {
            x_exec_signals: Table::new(),
            full_side_effects: Table::new(),
            local_xtx_states: Table::new(),
            insurance_deposits: Table::new(),
            xtx_insurance_links: Table::new(),
            local_side_effect_to_xtx_id_links: Table::new(),
            active_x_exec_signals_timing_links: Table::new(),
            signal_queue: Vec::new(),
        };
        proof {
            let v = r.deep_view();
            assert(v.x_exec_signals =~= Map::empty());
            assert(v.full_side_effects =~= Map::empty());
            assert(v.local_xtx_states =~= Map::empty());
            assert(v.insurance_deposits =~= Map::empty());
            assert(v.xtx_insurance_links =~= Map::empty());
            assert(v.local_side_effect_to_xtx_id_links =~= Map::empty());
        }
        r
    }

    /// Loads the deposits that the links of a transaction name.
    fn load_deposits(&self, id: &XtxId) -> (r: Option<Vec<(SideEffectId, InsuranceDeposit)>>)
        ensures
            match r {
                Some(d) => links_resolve(
                    self.deep_view().insurance_deposits,
                    *id,
                    links_of(self.deep_view(), *id),
                ) && d@ == linked_deposits(
                    self.deep_view().insurance_deposits,
                    *id,
                    links_of(self.deep_view(), *id),
                ),
                None => !links_resolve(
                    self.deep_view().insurance_deposits,
                    *id,
                    links_of(self.deep_view(), *id),
                ),
            },
    {
        let ghost rows = self.deep_view().insurance_deposits;
        let ghost links = links_of(self.deep_view(), *id);
        let mut out: Vec<(SideEffectId, InsuranceDeposit)> = Vec::new();
        match self.xtx_insurance_links.get(id) {
            Some(ids) => {
                assert(links == ids@);
                let mut i: usize = 0;
                while i < ids.len()
                    invariant
                        i <= ids.len(),
                        links == ids@,
                        links == links_of(self.deep_view(), *id),
                        rows == self.insurance_deposits.map(),
                        out@.len() == i,
                        forall|k: int| 0 <= k < i ==> rows.contains_key((*id, #[trigger] links[k])),
                        forall|k: int|
                            0 <= k < i ==> out@[k] == (links[k], rows[(*id, links[k])]),
                    decreases ids.len() - i,
                {
                    let se_id = ids[i];
                    match self.insurance_deposits.get(&(*id, se_id)) {
                        Some(deposit) => {
                            out.push((se_id, *deposit));
                        },
                        None => {
                            assert(!rows.contains_key((*id, links[i as int])));
                            return None;
                        },
                    }
                    i += 1;
                }
                assert(out@ =~= linked_deposits(rows, *id, links));
                Some(out)
            },
            None => {
                assert(links =~= Seq::empty());
                assert(out@ =~= linked_deposits(rows, *id, links));
                Some(out)
            },
        }
    }

    /// Phase one: the working copy for a handler that enters with `current_status`.
    ///
    /// With `Requested` a fresh execution transaction is made, which times out
    /// `timeout` blocks after `now`; a given identifier that the stores hold
    /// already is refused. With any other status the identifier is required and
    /// the transaction is loaded with its deposits, steps and local state; a
    /// handler that enters with `Finished` is refused a transaction that is
    /// not that far.
    pub fn setup(
        &self,
        current_status: CircuitStatus,
        requester: &AccountId,
        reward: Balance,
        xtx_id: Option<XtxId>,
        now: BlockNumber,
        timeout: BlockNumber,
    ) -> (r: Result<LocalXtxCtx, Error>)
        requires
            self.wf(),
            current_status is Requested ==> timeout + now <= BlockNumber::MAX,
        ensures
            r is Ok ==> r->Ok_0.encodable(),
            match setup_spec(
                self.deep_view(),
                current_status,
                *requester,
                reward,
                xtx_id,
                now,
                timeout,
            ) {
                Ok(ctx) => r is Ok && r->Ok_0.deep_view() == ctx,
                Err(e) => r == Err::<LocalXtxCtx, Error>(e),
            },
    {
        match current_status {
            CircuitStatus::Requested => {
                if let Some(id) = xtx_id {
                    if self.x_exec_signals.contains_key(&id) {
                        return Err(Error::SetupFailedDuplicatedXtx);
                    }
                }
                let timeouts_at = timeout + now;
                let (x_exec_signal_id, x_exec_signal) = XExecSignal::setup_fresh(
                    requester,
                    timeouts_at,
                    None,
                    Some(reward),
                );
                let ctx = LocalXtxCtx {
                    local_state: LocalState::new(),
                    xtx_id: x_exec_signal_id,
                    xtx: x_exec_signal,
                    insurance_deposits: Vec::new(),
                    full_side_effects: Vec::new(),
                };
                assert(ctx.full_side_effects.deep_view() =~= Seq::empty());
                assert(ctx.insurance_deposits@ =~= Seq::empty());
                Ok(ctx)
            },
            _ => {
                let id = match xtx_id {
                    Some(id) => id,
                    None => {
                        return Err(Error::SetupFailedEmptyXtx);
                    },
                };
                let xtx = match self.x_exec_signals.get(&id) {
                    Some(xtx) => xtx.clone(),
                    None => {
                        return Err(Error::SetupFailedUnknownXtx);
                    },
                };
                if !fits_entry(current_status, xtx.status) {
                    return Err(Error::SetupFailedIncorrectXtxStatus);
                }
                let insurance_deposits = match self.load_deposits(&id) {
                    Some(d) => d,
                    None => {
                        return Err(Error::SetupFailedXtxStorageArtifactsNotFound);
                    },
                };
                let full_side_effects = match self.full_side_effects.get(&id) {
                    Some(steps) => clone_steps(steps),
                    None => {
                        return Err(Error::SetupFailedXtxStorageArtifactsNotFound);
                    },
                };
                let local_state = match self.local_xtx_states.get(&id) {
                    Some(state) => state.clone(),
                    None => {
                        return Err(Error::SetupFailedXtxStorageArtifactsNotFound);
                    },
                };
                Ok(LocalXtxCtx { local_state, xtx_id: id, xtx, insurance_deposits, full_side_effects })
            },
        }
    }

    /// Links every identifier of `ids` to a transaction in the local index.
    fn link_local(&mut self, ids: &Vec<SideEffectId>, xtx_id: &XtxId)
        requires
            old(self).tables_wf(),
        ensures
            final(self).tables_wf(),
            final(self).deep_view() == (StoresView {
                local_side_effect_to_xtx_id_links: link_all(
                    old(self).deep_view().local_side_effect_to_xtx_id_links,
                    ids@,
                    *xtx_id,
                ),
                ..old(self).deep_view()
            }),
    {
        let ghost before = self.deep_view();
        let mut i: usize = 0;
        assert(ids@.take(0) =~= Seq::empty());
        while i < ids.len()
            invariant
                i <= ids.len(),
                self.tables_wf(),
                self.deep_view() == (StoresView {
                    local_side_effect_to_xtx_id_links: link_all(
                        before.local_side_effect_to_xtx_id_links,
                        ids@.take(i as int),
                        *xtx_id,
                    ),
                    ..before
                }),
            decreases ids.len() - i,
        {
            proof {
                assert(ids@.take(i + 1).drop_last() =~= ids@.take(i as int));
                assert(ids@.take(i + 1).last() == ids@[i as int]);
            }
            self.local_side_effect_to_xtx_id_links.insert(ids[i], *xtx_id);
            i += 1;
        }
        assert(ids@.take(ids.len() as int) =~= ids@);
    }

    /// Writes the deposits of a transaction and returns the identifiers of their
    /// side effects.
    fn store_deposits(&mut self, xtx_id: &XtxId, deposits: &Vec<(SideEffectId, InsuranceDeposit)>) -> (r: Vec<SideEffectId>)
        requires
            old(self).tables_wf(),
        ensures
            final(self).tables_wf(),
            r@ == deposit_ids(deposits@),
            final(self).deep_view() == (StoresView {
                insurance_deposits: deposit_all(
                    old(self).deep_view().insurance_deposits,
                    *xtx_id,
                    deposits@,
                ),
                ..old(self).deep_view()
            }),
    {
        let ghost before = self.deep_view();
        let mut ids: Vec<SideEffectId> = Vec::new();
        let mut i: usize = 0;
        assert(deposits@.take(0) =~= Seq::empty());
        while i < deposits.len()
            invariant
                i <= deposits.len(),
                self.tables_wf(),
                ids@.len() == i,
                forall|k: int| 0 <= k < i ==> ids@[k] == deposits@[k].0,
                self.deep_view() == (StoresView {
                    insurance_deposits: deposit_all(
                        before.insurance_deposits,
                        *xtx_id,
                        deposits@.take(i as int),
                    ),
                    ..before
                }),
            decreases deposits.len() - i,
        {
            proof {
                assert(deposits@.take(i + 1).drop_last() =~= deposits@.take(i as int));
                assert(deposits@.take(i + 1).last() == deposits@[i as int]);
            }
            self.insurance_deposits.insert((*xtx_id, deposits[i].0), deposits[i].1);
            ids.push(deposits[i].0);
            i += 1;
        }
        assert(deposits@.take(deposits.len() as int) =~= deposits@);
        assert(ids@ =~= deposit_ids(deposits@));
        ids
    }

    /// Writes the transaction of a working copy.
    fn store_xtx(&mut self, ctx: &LocalXtxCtx)
        requires
            old(self).tables_wf(),
        ensures
            final(self).tables_wf(),
            final(self).deep_view() == (StoresView {
                x_exec_signals: old(self).deep_view().x_exec_signals.insert(
                    ctx.xtx_id,
                    ctx.xtx.deep_view(),
                ),
                ..old(self).deep_view()
            }),
    {
        let xtx = ctx.xtx.clone();
        proof {
            lemma_deep_map_insert(self.x_exec_signals.map(), ctx.xtx_id, xtx);
        }
        self.x_exec_signals.insert(ctx.xtx_id, xtx);
    }

    /// Writes the steps of a working copy.
    fn store_steps(&mut self, ctx: &LocalXtxCtx)
        requires
            old(self).tables_wf(),
        ensures
            final(self).tables_wf(),
            final(self).deep_view() == (StoresView {
                full_side_effects: old(self).deep_view().full_side_effects.insert(
                    ctx.xtx_id,
                    ctx.full_side_effects.deep_view(),
                ),
                ..old(self).deep_view()
            }),
    {
        let steps = clone_steps(&ctx.full_side_effects);
        proof {
            lemma_deep_map_insert(self.full_side_effects.map(), ctx.xtx_id, steps);
        }
        self.full_side_effects.insert(ctx.xtx_id, steps);
    }

    /// Phase five, the sole writer: persists what the working copy holds, as the
    /// old status of the transaction asks, and returns what it wrote of the
    /// transaction and of its steps. A transaction that is written as over
    /// leaves the timing links. The side effects of the working copy must be
    /// such as can be encoded, as those of every stored transaction are. `local_side_effects` names the side effects
    /// of the bundle that execute locally; they are read for `Requested` only.
    pub fn apply(
        &mut self,
        local_ctx: &mut LocalXtxCtx,
        maybe_insurance_tuple: Option<(SideEffectId, InsuranceDeposit)>,
        local_side_effects: &Vec<SideEffectId>,
        status_change: (CircuitStatus, CircuitStatus),
    ) -> (r: (Option<XExecSignal>, Option<Vec<Vec<FullSideEffect>>>))
        requires
            old(self).wf(),
            old(local_ctx).encodable(),
        ensures
            final(self).wf(),
            final(local_ctx).encodable(),
            final(local_ctx).deep_view() == applied_ctx(old(local_ctx).deep_view(), status_change),
            final(self).deep_view() == applied_stores(
                old(self).deep_view(),
                final(local_ctx).deep_view(),
                maybe_insurance_tuple,
                local_side_effects@,
                status_change,
            ),
            r.0.deep_view() == applied_xtx(final(local_ctx).deep_view(), status_change),
            r.1.deep_view() == applied_steps(final(local_ctx).deep_view(), status_change),
    {
        proof {
            lemma_applied_encodable(
                self.deep_view(),
                applied_ctx(local_ctx.deep_view(), status_change),
                maybe_insurance_tuple,
                local_side_effects@,
                status_change,
            );
        }
        let (old_status, new_status) = status_change;
        match old_status {
            CircuitStatus::Requested => {
                self.store_steps(local_ctx);
                self.link_local(local_side_effects, &local_ctx.xtx_id);
                let ids_with_insurance = self.store_deposits(
                    &local_ctx.xtx_id,
                    &local_ctx.insurance_deposits,
                );
                proof {
                    lemma_view_map_insert(
                        self.xtx_insurance_links.map(),
                        local_ctx.xtx_id,
                        ids_with_insurance,
                    );
                }
                self.xtx_insurance_links.insert(local_ctx.xtx_id, ids_with_insurance);
                let state = local_ctx.local_state.clone();
                proof {
                    lemma_deep_map_insert(self.local_xtx_states.map(), local_ctx.xtx_id, state);
                }
                self.local_xtx_states.insert(local_ctx.xtx_id, state);
                if local_ctx.xtx.status.terminal() {
                    self.active_x_exec_signals_timing_links.remove(&local_ctx.xtx_id);
                } else {
                    self.active_x_exec_signals_timing_links.insert(
                        local_ctx.xtx_id,
                        local_ctx.xtx.timeouts_at,
                    );
                }
                self.store_xtx(local_ctx);
                (Some(local_ctx.xtx.clone()), Some(clone_steps(&local_ctx.full_side_effects)))
            },
            CircuitStatus::PendingInsurance => {
                if let Some((side_effect_id, insurance_deposit)) = maybe_insurance_tuple {
                    self.insurance_deposits.insert(
                        (local_ctx.xtx_id, side_effect_id),
                        insurance_deposit,
                    );
                }
                if old_status != new_status {
                    local_ctx.xtx.status = new_status;
                    self.store_xtx(local_ctx);
                    if local_ctx.xtx.status.terminal() {
                        self.active_x_exec_signals_timing_links.remove(&local_ctx.xtx_id);
                    }
                    (Some(local_ctx.xtx.clone()), None)
                } else {
                    (None, None)
                }
            },
            CircuitStatus::Ready
            | CircuitStatus::Bonded
            | CircuitStatus::PendingExecution
            | CircuitStatus::Finished => {
                self.store_steps(local_ctx);
                self.store_xtx(local_ctx);
                if local_ctx.xtx.status.terminal() {
                    self.active_x_exec_signals_timing_links.remove(&local_ctx.xtx_id);
                }
                if local_ctx.xtx.status.ordinal() > 3 {
                    (Some(local_ctx.xtx.clone()), Some(clone_steps(&local_ctx.full_side_effects)))
                } else {
                    (None, Some(clone_steps(&local_ctx.full_side_effects)))
                }
            },
            CircuitStatus::FinishedAllSteps
            | CircuitStatus::RevertTimedOut
            | CircuitStatus::RevertMisbehaviour
            | CircuitStatus::Reverted
            | CircuitStatus::RevertKill => {
                self.store_xtx(local_ctx);
                self.active_x_exec_signals_timing_links.remove(&local_ctx.xtx_id);
                (Some(local_ctx.xtx.clone()), Some(clone_steps(&local_ctx.full_side_effects)))
            },
        }
    }
}

} // verus!
