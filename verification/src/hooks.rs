//! The block hook of the Circuit: the signal queue is drained under a budget, and
//! the timing links are swept.
use crate::engine::square_up_plan;
use crate::events::{emit, emitted, Event, EventView};
use crate::interfaces::Config;
use crate::invariants::{
    insurance_consistent, lemma_apply_keeps_insurance_links, lemma_apply_keeps_timing_links,
    timing_consistent,
};
use crate::pallet::{append_events, killed_ctx, sweep_events, swept_stores, Constants, Pallet};
use crate::primitives::{AccountId, BlockNumber, SideEffect, SideEffectView};
use crate::signal::{ExecutionSignal, SignalKind};
use crate::status::CircuitStatus;
use crate::storage::{applied_stores, setup_spec, StoresView};
use crate::table::{distinct_keys, has_key, lemma_slots_drop_gone};
use crate::weights::{RuntimeDbWeight, Weight};
use crate::xtx::{current_step_of, LocalXtxCtxView, XExecSignalView};
use vstd::prelude::*;
use vstd::seq_lib::{to_multiset_build, to_multiset_contains, to_multiset_remove};

verus! {

/// The status that a signal asks for.
pub open spec fn intended_status(kind: SignalKind) -> CircuitStatus {
    match kind {
        SignalKind::Complete => CircuitStatus::Finished,
        SignalKind::Kill(_) => CircuitStatus::RevertKill,
    }
}

/// The status that a signal asks for: `Finished` to complete, `RevertKill` to kill.
pub fn signal_status(kind: SignalKind) -> (r: CircuitStatus)
    ensures
        r == intended_status(kind),
{
    match kind {
        SignalKind::Complete => CircuitStatus::Finished,
        SignalKind::Kill(_) => CircuitStatus::RevertKill,
    }
}

/// The number of signals that one block may examine: a quarter of the queue depth.
pub open spec fn key_budget(signal_queue_depth: u32) -> nat {
    (signal_queue_depth / 4) as nat
}

/// The weight of a drain that examined `examined` signals and handled `handled`
/// of them: four reads for each signal examined, two reads and a write for each
/// one handled, and a read and a write for the queue itself; the largest weight
/// if the sum exceeds it.
pub open spec fn drain_weight(db: RuntimeDbWeight, examined: nat, handled: nat) -> Weight {
    let total = examined * db.spec_reads(4) + handled * db.spec_reads_writes(2, 1)
        + db.spec_reads_writes(1, 1);
    if total <= Weight::MAX {
        total as Weight
    } else {
        Weight::MAX
    }
}

/// Every signal of `queue` is one of `origin`.
pub open spec fn signals_from(
    queue: Seq<(AccountId, ExecutionSignal)>,
    origin: Seq<(AccountId, ExecutionSignal)>,
) -> bool {
    forall|i: int| 0 <= i < queue.len() ==> origin.contains(#[trigger] queue[i])
}

/// The execution that a signal is for, where it loads and is not over yet.
pub open spec fn signal_target(
    s: StoresView,
    signal: (AccountId, ExecutionSignal),
    constants: Constants,
    now: BlockNumber,
) -> Option<LocalXtxCtxView> {
    match setup_spec(
        s,
        CircuitStatus::Ready,
        signal.0,
        0,
        Some(signal.1.execution_id),
        now,
        constants.xtx_timeout_default,
    ) {
        Ok(loaded) => if loaded.xtx.status.is_terminal() {
            None
        } else {
            Some(loaded)
        },
        Err(_) => None,
    }
}

/// The execution that the signal at the head of the queue is for, where it loads
/// and is not over yet.
pub open spec fn head_target(s: StoresView, constants: Constants, now: BlockNumber) -> Option<
    LocalXtxCtxView,
> {
    if s.signal_queue.len() == 0 {
        None
    } else {
        signal_target(s, s.signal_queue[0], constants, now)
    }
}

/// The signal at the head of the queue is handled: its execution loads and is
/// not over, and the kill goes through. A kill signal always goes through; a
/// complete signal does where the settlement of a finished step is planned and
/// the collaborators let it pass (`settled`).
pub open spec fn head_handled(
    s: StoresView,
    constants: Constants,
    now: BlockNumber,
    settled: bool,
) -> bool {
    &&& head_target(s, constants, now) is Some
    &&& s.signal_queue[0].1.kind is Kill || (settled && square_up_plan(
        CircuitStatus::Finished,
        current_step_of(head_target(s, constants, now)->Some_0),
        None,
        None,
    ) is Ok)
}

/// The stores after the signal at the head of the queue is examined. A signal
/// that is handled leaves the queue, the last signal takes its place, and the
/// stores take the execution as killed; any other signal goes to the tail.
pub open spec fn drain_step(
    s: StoresView,
    constants: Constants,
    now: BlockNumber,
    settled: bool,
) -> StoresView {
    let queue = s.signal_queue;
    if queue.len() == 0 {
        s
    } else if head_handled(s, constants, now, settled) {
        let cause = intended_status(queue[0].1.kind);
        StoresView {
            signal_queue: queue.update(0, queue.last()).drop_last(),
            ..applied_stores(
                s,
                killed_ctx(head_target(s, constants, now)->Some_0, cause),
                None,
                Seq::empty(),
                (cause, cause),
            )
        }
    } else {
        StoresView { signal_queue: queue.remove(0).push(queue[0]), ..s }
    }
}

/// The events of the signal at the head of the queue: those of the execution
/// that it killed, if it is handled.
pub open spec fn step_events(
    s: StoresView,
    constants: Constants,
    now: BlockNumber,
    settled: bool,
) -> Seq<EventView> {
    if s.signal_queue.len() > 0 && head_handled(s, constants, now, settled) {
        let loaded = head_target(s, constants, now)->Some_0;
        emitted(
            loaded.xtx_id,
            Some(killed_ctx(loaded, intended_status(s.signal_queue[0].1.kind)).xtx),
            s.signal_queue[0].0,
            Seq::empty(),
            None,
        )
    } else {
        Seq::empty()
    }
}

/// The stores after a drain that examined one signal for each entry of
/// `settled`, which tells for each whether the collaborators let its settlement pass.
pub open spec fn drained(
    s: StoresView,
    constants: Constants,
    now: BlockNumber,
    settled: Seq<bool>,
) -> StoresView
    decreases settled.len(),
{
    if settled.len() == 0 {
        s
    } else {
        drain_step(drained(s, constants, now, settled.drop_last()), constants, now, settled.last())
    }
}

/// The number of signals that such a drain handled.
pub open spec fn drain_handled(
    s: StoresView,
    constants: Constants,
    now: BlockNumber,
    settled: Seq<bool>,
) -> nat
    decreases settled.len(),
{
    if settled.len() == 0 {
        0
    } else {
        drain_handled(s, constants, now, settled.drop_last()) + (if head_handled(
            drained(s, constants, now, settled.drop_last()),
            constants,
            now,
            settled.last(),
        ) {
            1nat
        } else {
            0nat
        })
    }
}

/// The events of such a drain, in the order of the signals.
pub open spec fn drain_events(
    s: StoresView,
    constants: Constants,
    now: BlockNumber,
    settled: Seq<bool>,
) -> Seq<EventView>
    decreases settled.len(),
{
    if settled.len() == 0 {
        Seq::empty()
    } else {
        drain_events(s, constants, now, settled.drop_last()) + step_events(
            drained(s, constants, now, settled.drop_last()),
            constants,
            now,
            settled.last(),
        )
    }
}

/// Every signal of such a drain was examined at the head of a queue that held it.
pub open spec fn drain_examines(
    s: StoresView,
    constants: Constants,
    now: BlockNumber,
    settled: Seq<bool>,
) -> bool {
    forall|k: int|
        0 <= k < settled.len() ==> (#[trigger] drained(
            s,
            constants,
            now,
            settled.take(k),
        )).signal_queue.len() > 0
}

/// What a drain of the signal queue leaves: the stores are those of `drained`
/// for some answers of the collaborators, one for each signal examined; the drain
/// stops when the budget is spent or the queue is empty, and not before.
pub open spec fn drain_result(
    before: StoresView,
    after: StoresView,
    weight: Weight,
    events: Seq<EventView>,
    constants: Constants,
    now: BlockNumber,
    settled: Seq<bool>,
) -> bool {
    &&& settled.len() <= key_budget(constants.signal_queue_depth)
    &&& drain_examines(before, constants, now, settled)
    &&& after == drained(before, constants, now, settled)
    &&& settled.len() == key_budget(constants.signal_queue_depth) || after.signal_queue.len() == 0
    &&& events == drain_events(before, constants, now, settled)
    &&& weight == (if before.signal_queue.len() == 0 {
        0
    } else {
        drain_weight(
            constants.db_weight,
            settled.len(),
            drain_handled(before, constants, now, settled),
        )
    })
    &&& after.signal_queue.len() + drain_handled(before, constants, now, settled)
        == before.signal_queue.len()
}

/// What a drain leaves, for some answers of the collaborators.
pub open spec fn drain_outcome(
    before: StoresView,
    after: StoresView,
    weight: Weight,
    events: Seq<EventView>,
    constants: Constants,
    now: BlockNumber,
) -> bool {
    exists|settled: Seq<bool>| #[trigger]
        drain_result(before, after, weight, events, constants, now, settled)
}

/// What the hook of block `n` leaves: a drain, and on the stores that the drain
/// left a sweep, where the block is one for a sweep; the events of the drain
/// come first.
pub open spec fn hook_outcome(
    before: StoresView,
    after: StoresView,
    weight: Weight,
    events: Seq<EventView>,
    constants: Constants,
    n: BlockNumber,
) -> bool {
    exists|drained_stores: StoresView, drained_events: Seq<EventView>|
        {
            &&& #[trigger] drain_outcome(
                before,
                drained_stores,
                weight,
                drained_events,
                constants,
                n,
            )
            &&& after == (if n % constants.xtx_timeout_check_interval == 0 {
                swept_stores(drained_stores, constants, n)
            } else {
                drained_stores
            })
            &&& events == drained_events + (if n % constants.xtx_timeout_check_interval == 0 {
                sweep_events(drained_stores, constants, n)
            } else {
                Seq::empty()
            })
        }
}

/// A kill signal at the head of the queue, for an execution that loads and is
/// under way, is handled whatever the collaborators answer: the signal leaves the
/// queue, the execution is stored as killed, and its timing link is gone.
pub proof fn lemma_kill_signal_is_handled(
    s: StoresView,
    constants: Constants,
    now: BlockNumber,
    settled: bool,
)
    requires
        s.signal_queue.len() > 0,
        s.signal_queue[0].1.kind is Kill,
        head_target(s, constants, now) is Some,
        distinct_keys(s.active_x_exec_signals_timing_links),
    ensures
        head_handled(s, constants, now, settled),
        ({
            let id = s.signal_queue[0].1.execution_id;
            let after = drain_step(s, constants, now, settled);
            &&& after.signal_queue.len() == s.signal_queue.len() - 1
            &&& after.x_exec_signals.contains_key(id)
            &&& after.x_exec_signals[id] == (XExecSignalView {
                status: CircuitStatus::RevertKill,
                ..s.x_exec_signals[id]
            })
            &&& !has_key(after.active_x_exec_signals_timing_links, id)
        }),
{
    let id = s.signal_queue[0].1.execution_id;
    lemma_slots_drop_gone(s.active_x_exec_signals_timing_links, id);
}

/// The drain of a queue in which no signal has an execution that loads and is
/// under way handles nothing: every store but the queue stays as it is, the
/// queue keeps its signals, each as often as before, and no event is made.
pub proof fn lemma_drain_without_target(
    s: StoresView,
    constants: Constants,
    now: BlockNumber,
    settled: Seq<bool>,
)
    requires
        forall|i: int|
            0 <= i < s.signal_queue.len() ==> signal_target(
                s,
                #[trigger] s.signal_queue[i],
                constants,
                now,
            ) is None,
    ensures
        ({
            let after = drained(s, constants, now, settled);
            &&& after == (StoresView { signal_queue: after.signal_queue, ..s })
            &&& after.signal_queue.to_multiset() == s.signal_queue.to_multiset()
            &&& drain_handled(s, constants, now, settled) == 0
            &&& drain_events(s, constants, now, settled) == Seq::<EventView>::empty()
        }),
    decreases settled.len(),
{
    if settled.len() > 0 {
        lemma_drain_without_target(s, constants, now, settled.drop_last());
        let prev = drained(s, constants, now, settled.drop_last());
        let queue = prev.signal_queue;
        if queue.len() > 0 {
            assert(queue.contains(queue[0]));
            to_multiset_contains(queue, queue[0]);
            to_multiset_contains(s.signal_queue, queue[0]);
            assert(s.signal_queue.contains(queue[0]));
            let i = choose|i: int| 0 <= i < s.signal_queue.len() && s.signal_queue[i] == queue[0];
            assert(signal_target(s, s.signal_queue[i], constants, now) is None);
            assert(signal_target(prev, queue[0], constants, now) == signal_target(
                s,
                queue[0],
                constants,
                now,
            ));
            assert(!head_handled(prev, constants, now, settled.last()));
            to_multiset_remove(queue, 0);
            to_multiset_build(queue.remove(0), queue[0]);
            assert(queue.to_multiset().remove(queue[0]).insert(queue[0]) =~= queue.to_multiset());
        }
        assert(drain_events(s, constants, now, settled) =~= Seq::<EventView>::empty());
    }
}

/// The queue holds kill signals only, each for an execution of its own that
/// loads and is under way.
pub open spec fn kill_queue(s: StoresView, constants: Constants, now: BlockNumber) -> bool {
    &&& forall|i: int|
        0 <= i < s.signal_queue.len() ==> (#[trigger] s.signal_queue[i]).1.kind is Kill
    &&& forall|i: int|
        0 <= i < s.signal_queue.len() ==> signal_target(
            s,
            #[trigger] s.signal_queue[i],
            constants,
            now,
        ) is Some
    &&& forall|i: int, j: int|
        0 <= i < j < s.signal_queue.len() ==> (#[trigger] s.signal_queue[i]).1.execution_id != (
        #[trigger] s.signal_queue[j]).1.execution_id
}

/// The head of a queue of kill signals is handled, and what is left is a queue
/// of kill signals again, one signal shorter.
pub proof fn lemma_kill_queue_step(
    s: StoresView,
    constants: Constants,
    now: BlockNumber,
    settled: bool,
)
    requires
        kill_queue(s, constants, now),
        s.signal_queue.len() > 0,
    ensures
        head_handled(s, constants, now, settled),
        kill_queue(drain_step(s, constants, now, settled), constants, now),
        drain_step(s, constants, now, settled).signal_queue.len() == s.signal_queue.len() - 1,
{
    let queue = s.signal_queue;
    let after = drain_step(s, constants, now, settled);
    let left = after.signal_queue;
    assert(signal_target(s, queue[0], constants, now) is Some);
    assert(queue[0].1.kind is Kill);
    let killed = queue[0].1.execution_id;
    assert forall|i: int| 0 <= i < left.len() implies (#[trigger] left[i]).1.kind is Kill
        && left[i].1.execution_id != killed && signal_target(after, left[i], constants, now)
        is Some by {
        let from = if i == 0 {
            queue.len() - 1
        } else {
            i
        };
        assert(left[i] == queue[from]);
        assert(queue[from].1.kind is Kill);
        assert(queue[0].1.execution_id != queue[from].1.execution_id);
        assert(signal_target(s, queue[from], constants, now) is Some);
        assert(signal_target(after, left[i], constants, now) == signal_target(
            s,
            queue[from],
            constants,
            now,
        ));
    }
    assert forall|i: int, j: int| 0 <= i < j < left.len() implies (#[trigger] left[i]).1.execution_id
        != (#[trigger] left[j]).1.execution_id by {
        let from = if i == 0 {
            queue.len() - 1
        } else {
            i
        };
        assert(left[i] == queue[from]);
        assert(left[j] == queue[j]);
        assert(queue[j].1.execution_id != queue[from].1.execution_id);
    }
}

/// A drain of a queue of kill signals handles every signal that it examines.
pub proof fn lemma_kill_queue_drain(
    s: StoresView,
    constants: Constants,
    now: BlockNumber,
    settled: Seq<bool>,
)
    requires
        kill_queue(s, constants, now),
        settled.len() <= s.signal_queue.len(),
    ensures
        drain_handled(s, constants, now, settled) == settled.len(),
        kill_queue(drained(s, constants, now, settled), constants, now),
        drained(s, constants, now, settled).signal_queue.len() == s.signal_queue.len()
            - settled.len(),
    decreases settled.len(),
{
    if settled.len() > 0 {
        lemma_kill_queue_drain(s, constants, now, settled.drop_last());
        lemma_kill_queue_step(
            drained(s, constants, now, settled.drop_last()),
            constants,
            now,
            settled.last(),
        );
    }
}

/// The number of signals that one drain handles: of a queue of kill signals, each
/// for an execution of its own that loads and is under way, a drain handles as
/// many as the key budget allows, and all of them if the budget allows that.
pub proof fn lemma_drain_handles_the_budget(
    before: StoresView,
    after: StoresView,
    weight: Weight,
    events: Seq<EventView>,
    constants: Constants,
    now: BlockNumber,
    settled: Seq<bool>,
)
    requires
        kill_queue(before, constants, now),
        drain_result(before, after, weight, events, constants, now, settled),
    ensures
        drain_handled(before, constants, now, settled) == (if before.signal_queue.len()
            <= key_budget(constants.signal_queue_depth) {
            before.signal_queue.len()
        } else {
            key_budget(constants.signal_queue_depth)
        }),
        after.signal_queue.len() + drain_handled(before, constants, now, settled)
            == before.signal_queue.len(),
{
    if settled.len() > before.signal_queue.len() {
        let k = before.signal_queue.len() as int;
        lemma_kill_queue_drain(before, constants, now, settled.take(k));
        assert(drained(before, constants, now, settled.take(k)).signal_queue.len() > 0);
    }
    lemma_kill_queue_drain(before, constants, now, settled);
}

impl<T: Config> Pallet<T> {
    /// Drains the signal queue under the key budget of the block and returns
    /// the weight of the work with the events of the executions that it handled.
    ///
    /// Each turn examines the signal at the head. The execution is loaded and
    /// killed with the status that the signal asks for; the signal then leaves
    /// the queue, and the last signal takes its place. A signal whose execution
    /// cannot be loaded or killed goes to the tail. Every signal examined costs
    /// one key of the budget, so that a drain ends.
    ///
    /// An empty queue costs nothing. No signal is added, the deposits stay with
    /// their links, and the timing links stay consistent. Stores, weight and
    /// events are those of `drain_result`: a kill signal for an execution that
    /// loads and is under way is handled, whatever the collaborators answer.
    pub fn process_signal_queue(&mut self) -> (r: (Weight, Vec<Event>))
        requires
            old(self).wf(),
        ensures
            final(self).wf(),
            final(self).same_settings(old(self)),
            signals_from(final(self).stores.signal_queue@, old(self).stores.signal_queue@),
            insurance_consistent(old(self).stores.deep_view()) ==> insurance_consistent(
                final(self).stores.deep_view(),
            ),
            timing_consistent(old(self).stores.deep_view()) ==> timing_consistent(
                final(self).stores.deep_view(),
            ),
            drain_outcome(
                old(self).stores.deep_view(),
                final(self).stores.deep_view(),
                r.0,
                r.1.deep_view(),
                old(self).constants,
                old(self).block_number,
            ),
    {
        let mut events: Vec<Event> = Vec::new();
        let ghost before = self.stores.deep_view();
        let ghost constants = self.constants;
        let ghost now = self.block_number;
        let ghost mut settled: Seq<bool> = Seq::empty();
        assert(events.deep_view() =~= Seq::<EventView>::empty());
        if self.stores.signal_queue.len() == 0 {
            assert(drain_result(before, before, 0, events.deep_view(), constants, now, settled));
            assert(drain_outcome(before, before, 0, events.deep_view(), constants, now));
            return (0, events);
        }
        let db_weight = self.constants.db_weight;
        let mut remaining_key_budget: u32 = self.constants.signal_queue_depth / 4;
        let mut processed_weight: Weight = 0;
        let ghost mut handled: nat = 0;
        let ghost r4 = db_weight.spec_reads(4);
        let ghost rw = db_weight.spec_reads_writes(2, 1);
        assert(settled.len() * r4 + handled * rw == 0) by (nonlinear_arith)
            requires
                settled.len() == 0,
                handled == 0,
        ;
        while self.stores.signal_queue.len() > 0 && remaining_key_budget > 0
            invariant
                self.wf(),
                self.same_settings(old(self)),
                constants == self.constants,
                now == self.block_number,
                db_weight == self.constants.db_weight,
                before == old(self).stores.deep_view(),
                r4 == db_weight.spec_reads(4),
                rw == db_weight.spec_reads_writes(2, 1),
                settled.len() + remaining_key_budget == key_budget(constants.signal_queue_depth),
                drain_examines(before, constants, now, settled),
                self.stores.deep_view() == drained(before, constants, now, settled),
                handled == drain_handled(before, constants, now, settled),
                handled <= settled.len(),
                events.deep_view() == drain_events(before, constants, now, settled),
                self.stores.signal_queue@.len() + handled == before.signal_queue.len(),
                signals_from(self.stores.signal_queue@, before.signal_queue),
                insurance_consistent(before) ==> insurance_consistent(self.stores.deep_view()),
                timing_consistent(before) ==> timing_consistent(self.stores.deep_view()),
                processed_weight == (if settled.len() * r4 + handled * rw <= Weight::MAX {
                    (settled.len() * r4 + handled * rw) as Weight
                } else {
                    Weight::MAX
                }),
            decreases remaining_key_budget,
        {
            let (requester, signal) = self.stores.signal_queue[0];
            let ghost current = self.stores.deep_view();
            let ghost queue_before = self.stores.signal_queue@;
            let ghost events_before = events.deep_view();
            let ghost total_before = settled.len() * r4 + handled * rw;
            let ghost examined = settled.len();
            let intended = signal_status(signal.kind);
            processed_weight = processed_weight.saturating_add(db_weight.reads(4));
            let mut done = false;
            match self.setup(CircuitStatus::Ready, &requester, 0, Some(signal.execution_id)) {
                Ok(mut local_xtx_ctx) => {
                    let ghost loaded = local_xtx_ctx.deep_view();
                    match self.kill(&mut local_xtx_ctx, intended) {
                        Ok(_) => {
                            proof {
                                if timing_consistent(current) {
                                    assert(current.x_exec_signals.contains_key(loaded.xtx_id));
                                    assert(crate::table::has_key(
                                        current.active_x_exec_signals_timing_links,
                                        loaded.xtx_id,
                                    ));
                                    lemma_apply_keeps_timing_links(
                                        current,
                                        killed_ctx(loaded, intended),
                                        None,
                                        Seq::empty(),
                                        (intended, intended),
                                    );
                                }
                                if insurance_consistent(current) {
                                    lemma_apply_keeps_insurance_links(
                                        current,
                                        killed_ctx(loaded, intended),
                                        None,
                                        Seq::empty(),
                                        (intended, intended),
                                    );
                                }
                            }
                            let no_side_effects: Vec<SideEffect> = Vec::new();
                            assert(no_side_effects.deep_view() =~= Seq::<SideEffectView>::empty());
                            let mut emitted_events = emit(
                                local_xtx_ctx.xtx_id,
                                Some(local_xtx_ctx.xtx),
                                &requester,
                                &no_side_effects,
                                None,
                            );
                            append_events(&mut events, &mut emitted_events);
                            done = true;
                        },
                        Err(_) => {},
                    }
                },
                Err(_) => {},
            }
            assert(self.stores.signal_queue@ == queue_before);
            assert(done == head_handled(current, constants, now, done));
            if done {
                self.stores.signal_queue.swap_remove(0);
                processed_weight = processed_weight.saturating_add(db_weight.reads_writes(2, 1));
                proof {
                    let after = self.stores.signal_queue@;
                    assert forall|i: int| 0 <= i < after.len() implies before.signal_queue.contains(
                        #[trigger] after[i],
                    ) by {
                        if i == 0 {
                            assert(after[i] == queue_before[queue_before.len() - 1]);
                        } else {
                            assert(after[i] == queue_before[i]);
                        }
                    }
                    assert((examined + 1) * r4 + (handled + 1) * rw == total_before + r4 + rw)
                        by (nonlinear_arith)
                        requires
                            total_before == examined * r4 + handled * rw,
                    ;
                    handled = handled + 1;
                }
            } else {
                let head = self.stores.signal_queue.remove(0);
                self.stores.signal_queue.push(head);
                proof {
                    let after = self.stores.signal_queue@;
                    assert forall|i: int| 0 <= i < after.len() implies before.signal_queue.contains(
                        #[trigger] after[i],
                    ) by {
                        if i == after.len() - 1 {
                            assert(after[i] == queue_before[0]);
                        } else {
                            assert(after[i] == queue_before[i + 1]);
                        }
                    }
                    assert((examined + 1) * r4 + handled * rw == total_before + r4) by (
                    nonlinear_arith)
                        requires
                            total_before == examined * r4 + handled * rw,
                    ;
                }
            }
            proof {
                let old_settled = settled;
                settled = settled.push(done);
                assert(settled.drop_last() =~= old_settled);
                assert(settled.last() == done);
                assert(self.stores.deep_view() == drain_step(current, constants, now, done));
                assert(events.deep_view() == events_before + step_events(
                    current,
                    constants,
                    now,
                    done,
                ));
                assert forall|k: int| 0 <= k < settled.len() implies (#[trigger] drained(
                    before,
                    constants,
                    now,
                    settled.take(k),
                )).signal_queue.len() > 0 by {
                    if k < old_settled.len() {
                        assert(settled.take(k) =~= old_settled.take(k));
                    } else {
                        assert(settled.take(k) =~= old_settled);
                    }
                }
            }
            remaining_key_budget -= 1;
        }
        processed_weight = processed_weight.saturating_add(db_weight.reads_writes(1, 1));
        proof {
            assert(settled.len() * r4 >= 0 && handled * rw >= 0) by (nonlinear_arith)
                requires
                    r4 >= 0,
                    rw >= 0,
            ;
            assert(processed_weight == drain_weight(db_weight, settled.len(), handled));
            assert(drain_result(
                before,
                self.stores.deep_view(),
                processed_weight,
                events.deep_view(),
                constants,
                now,
                settled,
            ));
            assert(drain_outcome(
                before,
                self.stores.deep_view(),
                processed_weight,
                events.deep_view(),
                constants,
                now,
            ));
        }
        (processed_weight, events)
    }

    /// The hook at the start of block `n`: the block number is taken, the signal
    /// queue is drained, and at every block that the check interval divides the
    /// timing links are swept. Returns the weight of the drain with the events
    /// of both, those of the drain first.
    ///
    /// The drain is that of `drain_result` at block `n`; the sweep is made on
    /// the stores that the drain leaves. With an empty queue the drain changes
    /// nothing, costs nothing and has no events.
    pub fn on_initialize(&mut self, n: BlockNumber) -> (r: (Weight, Vec<Event>))
        requires
            old(self).wf(),
            old(self).constants.xtx_timeout_check_interval > 0,
        ensures
            final(self).wf(),
            final(self).constants == old(self).constants,
            final(self).block_number == n,
            signals_from(final(self).stores.signal_queue@, old(self).stores.signal_queue@),
            insurance_consistent(old(self).stores.deep_view()) ==> insurance_consistent(
                final(self).stores.deep_view(),
            ),
            timing_consistent(old(self).stores.deep_view()) ==> timing_consistent(
                final(self).stores.deep_view(),
            ),
            hook_outcome(
                old(self).stores.deep_view(),
                final(self).stores.deep_view(),
                r.0,
                r.1.deep_view(),
                old(self).constants,
                n,
            ),
            old(self).stores.signal_queue@.len() == 0 ==> r.0 == 0 && final(self).stores.deep_view() == (if n % old(self).constants.xtx_timeout_check_interval == 0 {
                swept_stores(old(self).stores.deep_view(), old(self).constants, n)
            } else {
                old(self).stores.deep_view()
            }) && r.1.deep_view() == (if n % old(self).constants.xtx_timeout_check_interval == 0 {
                sweep_events(old(self).stores.deep_view(), old(self).constants, n)
            } else {
                Seq::<EventView>::empty()
            }),
    {
        self.block_number = n;
        let ghost before = self.stores.deep_view();
        let (weight, mut events) = self.process_signal_queue();
        let ghost drained_stores = self.stores.deep_view();
        let ghost drained_events = events.deep_view();
        if n % self.constants.xtx_timeout_check_interval == 0 {
            let mut swept = self.sweep_timeouts();
            append_events(&mut events, &mut swept);
        } else {
            assert(events.deep_view() =~= drained_events + Seq::<EventView>::empty());
        }
        proof {
            assert(drain_outcome(before, drained_stores, weight, drained_events, self.constants, n));
            assert(events.deep_view() == drained_events + (if n
                % self.constants.xtx_timeout_check_interval == 0 {
                sweep_events(drained_stores, self.constants, n)
            } else {
                Seq::empty()
            }));
            assert(hook_outcome(
                before,
                self.stores.deep_view(),
                weight,
                events.deep_view(),
                self.constants,
                n,
            ));
            if before.signal_queue.len() == 0 {
                let settled = choose|settled: Seq<bool>| #[trigger]
                    drain_result(
                        before,
                        drained_stores,
                        weight,
                        drained_events,
                        self.constants,
                        n,
                        settled,
                    );
                lemma_empty_queue_stays(before, self.constants, n, settled);
                assert(events.deep_view() =~= drained_events + (if n
                    % self.constants.xtx_timeout_check_interval == 0 {
                    sweep_events(drained_stores, self.constants, n)
                } else {
                    Seq::empty()
                }));
            }
        }
        (weight, events)
    }
}

/// A drain of an empty queue examines nothing.
pub proof fn lemma_empty_queue_stays(
    s: StoresView,
    constants: Constants,
    now: BlockNumber,
    settled: Seq<bool>,
)
    requires
        s.signal_queue.len() == 0,
        drain_examines(s, constants, now, settled),
    ensures
        settled.len() == 0,
        drained(s, constants, now, settled) == s,
        drain_events(s, constants, now, settled) == Seq::<EventView>::empty(),
{
    if settled.len() > 0 {
        assert(settled.take(0) =~= Seq::<bool>::empty());
        assert(drained(s, constants, now, settled.take(0)).signal_queue.len() > 0);
    }
}

} // verus!
