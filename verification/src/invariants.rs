//! What the stores keep across every write: the timing links name the execution
//! transactions under way, and the insurance links name the deposits.
use crate::engine::{revert_charges, square_up_plan, Settlement};
use crate::optimistic::{slash_refunds, slashed, Transfer};
use crate::pallet::killed_ctx;
use crate::primitives::{AccountId, Balance, BlockNumber, SideEffectId, XtxId};
use crate::status::{CircuitStatus, Deposits, InsuranceDeposit};
use crate::storage::{
    applied_stores, deposit_all, deposit_ids, fresh_ctx, links_of, setup_spec, StoresView,
};
use crate::table::{
    distinct_keys, has_key, lemma_slots_drop, lemma_slots_drop_gone, lemma_slots_put, slots_drop,
};
use crate::xtx::{current_step_of, LocalXtxCtxView, XExecSignalView};
use vstd::prelude::*;

verus! {

/// A transaction has a timing link exactly while it is under way: its status is
/// before `FinishedAllSteps` and outside the revert family.
pub open spec fn timing_consistent(s: StoresView) -> bool {
    forall|id: XtxId| #[trigger]
        has_key(s.active_x_exec_signals_timing_links, id) <==> (s.x_exec_signals.contains_key(id)
            && s.x_exec_signals[id].status.is_active())
}

/// A side effect of a transaction has a deposit exactly when the insurance links
/// of the transaction name it.
pub open spec fn insurance_consistent(s: StoresView) -> bool {
    forall|x: XtxId, sfx: SideEffectId| #[trigger]
        s.insurance_deposits.contains_key((x, sfx)) <==> links_of(s, x).contains(sfx)
}

/// The write fits the timing links: a transaction that is written as under way
/// without a new link has its link already, and a transaction that enters
/// `apply` as over is written as over.
pub open spec fn write_fits_timing(
    s: StoresView,
    ctx: LocalXtxCtxView,
    change: (CircuitStatus, CircuitStatus),
) -> bool {
    let linked = has_key(s.active_x_exec_signals_timing_links, ctx.xtx_id);
    match change.0 {
        CircuitStatus::Requested => true,
        CircuitStatus::PendingInsurance => change.0 != change.1 && ctx.xtx.status.is_active()
            ==> linked,
        CircuitStatus::Ready
        | CircuitStatus::Bonded
        | CircuitStatus::PendingExecution
        | CircuitStatus::Finished => ctx.xtx.status.is_active() ==> linked,
        _ => !ctx.xtx.status.is_active(),
    }
}

/// `apply` keeps the timing links consistent, for every write that fits them.
pub proof fn lemma_apply_keeps_timing_links(
    s: StoresView,
    ctx: LocalXtxCtxView,
    insurance: Option<(SideEffectId, InsuranceDeposit)>,
    local_ids: Seq<SideEffectId>,
    change: (CircuitStatus, CircuitStatus),
)
    requires
        timing_consistent(s),
        distinct_keys(s.active_x_exec_signals_timing_links),
        write_fits_timing(s, ctx, change),
    ensures
        timing_consistent(applied_stores(s, ctx, insurance, local_ids, change)),
        distinct_keys(
            applied_stores(s, ctx, insurance, local_ids, change).active_x_exec_signals_timing_links,
        ),
{
    let after = applied_stores(s, ctx, insurance, local_ids, change);
    lemma_slots_put(s.active_x_exec_signals_timing_links, ctx.xtx_id, ctx.xtx.timeouts_at);
    lemma_slots_drop(s.active_x_exec_signals_timing_links, ctx.xtx_id);
    assert forall|id: XtxId| #[trigger]
        has_key(after.active_x_exec_signals_timing_links, id) <==> (
        after.x_exec_signals.contains_key(id) && after.x_exec_signals[id].status.is_active()) by {
        assert(has_key(s.active_x_exec_signals_timing_links, id) <==> (
        s.x_exec_signals.contains_key(id) && s.x_exec_signals[id].status.is_active()));
    }
}

/// The deposit rows after the deposits of a transaction are written: the rows
/// that were there, and one for each deposit.
pub proof fn lemma_deposit_all_keys(
    m: Map<(XtxId, SideEffectId), InsuranceDeposit>,
    xtx_id: XtxId,
    deposits: Deposits,
)
    ensures
        forall|x: XtxId, sfx: SideEffectId| #[trigger]
            deposit_all(m, xtx_id, deposits).contains_key((x, sfx)) <==> (m.contains_key((x, sfx))
                || (x == xtx_id && deposit_ids(deposits).contains(sfx))),
    decreases deposits.len(),
{
    if deposits.len() > 0 {
        let rest = deposits.drop_last();
        lemma_deposit_all_keys(m, xtx_id, rest);
        assert forall|x: XtxId, sfx: SideEffectId| #[trigger]
            deposit_all(m, xtx_id, deposits).contains_key((x, sfx)) <==> (m.contains_key((x, sfx))
                || (x == xtx_id && deposit_ids(deposits).contains(sfx))) by {
            assert(deposit_all(m, xtx_id, rest).contains_key((x, sfx)) <==> (m.contains_key(
                (x, sfx),
            ) || (x == xtx_id && deposit_ids(rest).contains(sfx))));
            if deposit_ids(rest).contains(sfx) {
                let i = choose|i: int|
                    0 <= i < deposit_ids(rest).len() && deposit_ids(rest)[i] == sfx;
                assert(deposit_ids(deposits)[i] == sfx);
            }
            if deposit_ids(deposits).contains(sfx) {
                let i = choose|i: int|
                    0 <= i < deposit_ids(deposits).len() && deposit_ids(deposits)[i] == sfx;
                if i < rest.len() {
                    assert(deposit_ids(rest)[i] == sfx);
                }
            }
            if sfx == deposits.last().0 {
                assert(deposit_ids(deposits)[deposits.len() - 1] == sfx);
            }
        }
    }
}

/// The write leaves the deposits to the links: a bundle is written under an
/// identifier whose deposits, if it has any, are among those of the bundle, and
/// a single deposit is written for a side effect that the links name.
pub open spec fn write_fits_insurance(
    s: StoresView,
    ctx: LocalXtxCtxView,
    insurance: Option<(SideEffectId, InsuranceDeposit)>,
    change: (CircuitStatus, CircuitStatus),
) -> bool {
    match change.0 {
        CircuitStatus::Requested => forall|sfx: SideEffectId| #[trigger]
            s.insurance_deposits.contains_key((ctx.xtx_id, sfx)) ==> deposit_ids(
                ctx.insurance_deposits,
            ).contains(sfx),
        CircuitStatus::PendingInsurance => insurance is Some ==> links_of(s, ctx.xtx_id).contains(
            insurance->Some_0.0,
        ),
        _ => true,
    }
}

/// `apply` keeps deposits and insurance links consistent, for every write that
/// leaves the deposits to the links.
pub proof fn lemma_apply_keeps_insurance_links(
    s: StoresView,
    ctx: LocalXtxCtxView,
    insurance: Option<(SideEffectId, InsuranceDeposit)>,
    local_ids: Seq<SideEffectId>,
    change: (CircuitStatus, CircuitStatus),
)
    requires
        insurance_consistent(s),
        write_fits_insurance(s, ctx, insurance, change),
    ensures
        insurance_consistent(applied_stores(s, ctx, insurance, local_ids, change)),
{
    let after = applied_stores(s, ctx, insurance, local_ids, change);
    lemma_deposit_all_keys(s.insurance_deposits, ctx.xtx_id, ctx.insurance_deposits);
    assert forall|x: XtxId, sfx: SideEffectId| #[trigger]
        after.insurance_deposits.contains_key((x, sfx)) <==> links_of(after, x).contains(sfx) by {
        assert(s.insurance_deposits.contains_key((x, sfx)) <==> links_of(s, x).contains(sfx));
        if change.0 is Requested {
            assert(deposit_all(
                s.insurance_deposits,
                ctx.xtx_id,
                ctx.insurance_deposits,
            ).contains_key((x, sfx)) <==> (s.insurance_deposits.contains_key((x, sfx)) || (x
                == ctx.xtx_id && deposit_ids(ctx.insurance_deposits).contains(sfx))));
            if x == ctx.xtx_id {
                assert(s.insurance_deposits.contains_key((ctx.xtx_id, sfx)) ==> deposit_ids(
                    ctx.insurance_deposits,
                ).contains(sfx));
            }
        }
    }
}

/// The deposits that a transaction is loaded with are those that its links name:
/// written back, with any of them replaced, they leave the deposits to the links.
pub proof fn lemma_loaded_deposits_fit(
    s: StoresView,
    id: XtxId,
    deposits: Deposits,
)
    requires
        insurance_consistent(s),
        deposit_ids(deposits) == links_of(s, id),
    ensures
        forall|sfx: SideEffectId| #[trigger]
            s.insurance_deposits.contains_key((id, sfx)) ==> deposit_ids(deposits).contains(sfx),
        forall|i: int|
            0 <= i < deposits.len() ==> links_of(s, id).contains((#[trigger] deposits[i]).0),
{
    assert forall|i: int| 0 <= i < deposits.len() implies links_of(s, id).contains(
        (#[trigger] deposits[i]).0,
    ) by {
        assert(deposit_ids(deposits)[i] == deposits[i].0);
    }
}

/// A bundle that is set up and killed at once leaves no trace but its row: the
/// kill of a fresh working copy with `RevertKill` writes the transaction as
/// killed, keeps it out of the timing links, and touches no other store.
pub proof fn lemma_fresh_kill_leaves_no_trace(
    s: StoresView,
    requester: AccountId,
    reward: Balance,
    now: BlockNumber,
    timeout: BlockNumber,
    local_ids: Seq<SideEffectId>,
)
    requires
        timeout + now <= BlockNumber::MAX,
        distinct_keys(s.active_x_exec_signals_timing_links),
    ensures
        setup_spec(s, CircuitStatus::Requested, requester, reward, None, now, timeout) == Ok::<
            LocalXtxCtxView,
            crate::error::Error,
        >(fresh_ctx(requester, reward, (timeout + now) as u32)),
        ({
            let fresh = fresh_ctx(requester, reward, (timeout + now) as u32);
            let row = XExecSignalView { status: CircuitStatus::RevertKill, ..fresh.xtx };
            let after = applied_stores(
                s,
                LocalXtxCtxView { xtx: row, ..fresh },
                None,
                local_ids,
                (CircuitStatus::RevertKill, CircuitStatus::RevertKill),
            );
            &&& after == (StoresView {
                x_exec_signals: s.x_exec_signals.insert(fresh.xtx_id, row),
                active_x_exec_signals_timing_links: slots_drop(
                    s.active_x_exec_signals_timing_links,
                    fresh.xtx_id,
                ),
                ..s
            })
            &&& !has_key(after.active_x_exec_signals_timing_links, fresh.xtx_id)
            &&& !has_key(s.active_x_exec_signals_timing_links, fresh.xtx_id)
                ==> after.active_x_exec_signals_timing_links
                == s.active_x_exec_signals_timing_links
        }),
{
    let fresh = fresh_ctx(requester, reward, (timeout + now) as u32);
    lemma_slots_drop_gone(s.active_x_exec_signals_timing_links, fresh.xtx_id);
}

/// A bundle that is set up and killed at once moves no balance: the fresh
/// working copy has no step and no deposit, so the settlement of the kill plans
/// no charge, the slash refunds nothing, and the working copy that the kill
/// writes is the fresh one with the status of the kill.
pub proof fn lemma_fresh_kill_plans_no_payment(
    requester: AccountId,
    reward: Balance,
    timeouts_at: BlockNumber,
    escrow: AccountId,
)
    ensures
        ({
            let fresh = fresh_ctx(requester, reward, timeouts_at);
            &&& square_up_plan(CircuitStatus::RevertKill, current_step_of(fresh), None, None)
                == Ok::<Seq<Settlement>, crate::error::Error>(Seq::empty())
            &&& slash_refunds(fresh.insurance_deposits, escrow) == Seq::<Transfer>::empty()
            &&& killed_ctx(fresh, CircuitStatus::RevertKill) == (LocalXtxCtxView {
                xtx: XExecSignalView { status: CircuitStatus::RevertKill, ..fresh.xtx },
                ..fresh
            })
        }),
{
    let fresh = fresh_ctx(requester, reward, timeouts_at);
    assert(current_step_of(fresh) =~= Seq::empty());
    assert(revert_charges(current_step_of(fresh)) =~= Seq::empty());
    assert(slashed(fresh.insurance_deposits) =~= Seq::empty());
    assert(killed_ctx(fresh, CircuitStatus::RevertKill).insurance_deposits =~= Seq::empty());
}

} // verus!
