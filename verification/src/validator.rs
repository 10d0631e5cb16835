//! The validator's rules: how a side effect is classified, and how the classified
//! side effects of a bundle are ordered and laid out in steps.
use crate::error::PRIZE_MISMATCH;
use crate::primitives::{
    Balance, FullSideEffect, FullSideEffectView, GatewayType, SecurityLvl,
    SideEffect, StepView, StepsView,
};
use vstd::prelude::*;

verus! {

/// The level of a side effect without insurance: escrowed on a gateway that the
/// Circuit itself runs, dirty on any other.
pub open spec fn gateway_lvl(gateway_type: GatewayType) -> SecurityLvl {
    match gateway_type {
        GatewayType::ProgrammableInternal(_) => SecurityLvl::Escrowed,
        GatewayType::OnCircuit(_) => SecurityLvl::Escrowed,
        _ => SecurityLvl::Dirty,
    }
}

/// The level of a side effect that declares no insurance.
pub fn determine_dirty_vs_escrowed_lvl(gateway_type: GatewayType) -> (r: SecurityLvl)
    ensures
        r == gateway_lvl(gateway_type),
{
    match gateway_type {
        GatewayType::ProgrammableInternal(_) => SecurityLvl::Escrowed,
        GatewayType::OnCircuit(_) => SecurityLvl::Escrowed,
        _ => SecurityLvl::Dirty,
    }
}

/// A gateway executes locally: it is the Circuit's own gateway, or the first
/// programmable internal one.
pub open spec fn local_gateway(is_self: bool, gateway_type: GatewayType) -> bool {
    is_self || gateway_type == GatewayType::ProgrammableInternal(0)
}

/// Tells whether a gateway executes locally.
pub fn is_local_gateway(is_self: bool, gateway_type: GatewayType) -> (r: bool)
    ensures
        r == local_gateway(is_self, gateway_type),
{
    if is_self {
        return true;
    }
    match gateway_type {
        GatewayType::ProgrammableInternal(n) => n == 0,
        _ => false,
    }
}

/// Checks the declared insurance of a side effect against its prize: the reward
/// of the insurance must be the prize.
pub fn check_insurance_reward(prize: Balance, insurance_and_reward: Option<[Balance; 2]>) -> (r:
    Result<(), &'static str>)
    ensures
        r == (match insurance_and_reward {
            Some(pair) if pair[1] != prize => Err::<(), &'static str>(PRIZE_MISMATCH),
            _ => Ok::<(), &'static str>(()),
        }),
{
    match insurance_and_reward {
        Some(pair) => {
            if pair[1] != prize {
                Err(PRIZE_MISMATCH)
            } else {
                Ok(())
            }
        },
        None => Ok(()),
    }
}

/// The side effects of `s` that have the level `lvl`, in their order.
pub open spec fn with_lvl(s: StepView, lvl: SecurityLvl) -> StepView {
    s.filter(|f: FullSideEffectView| f.security_lvl == lvl)
}

/// The side effects of `s` that are not dirty: the escrowed ones, then the
/// optimistic ones, each group in submission order.
pub open spec fn clean_part(s: StepView) -> StepView {
    with_lvl(s, SecurityLvl::Escrowed) + with_lvl(s, SecurityLvl::Optimistic)
}

/// The dirty side effects of `s`, in submission order.
pub open spec fn dirty_part(s: StepView) -> StepView {
    with_lvl(s, SecurityLvl::Dirty)
}

/// The execution order of a bundle: a stable sort by security level.
pub open spec fn execution_order(s: StepView) -> StepView {
    clean_part(s) + dirty_part(s)
}

/// One step for each side effect of `s`.
pub open spec fn singletons(s: StepView) -> StepsView {
    Seq::new(s.len(), |i: int| seq![s[i]])
}

/// The steps of a bundle: the side effects that are not dirty share the first
/// step, and every dirty one has a step of its own after it. A bundle without side
/// effects has one empty step.
pub open spec fn steps_layout(s: StepView) -> StepsView {
    if s.len() == 0 {
        seq![Seq::<FullSideEffectView>::empty()]
    } else if clean_part(s).len() == 0 {
        singletons(dirty_part(s))
    } else {
        seq![clean_part(s)] + singletons(dirty_part(s))
    }
}

/// Filtering the first `i + 1` side effects adds the one at `i`, if it has the level.
pub proof fn lemma_with_lvl_take(s: StepView, i: int, lvl: SecurityLvl)
    requires
        0 <= i < s.len(),
    ensures
        with_lvl(s.take(i + 1), lvl) == (if s[i].security_lvl == lvl {
            with_lvl(s.take(i), lvl).push(s[i])
        } else {
            with_lvl(s.take(i), lvl)
        }),
{
    reveal(Seq::filter);
    assert(s.take(i + 1).drop_last() =~= s.take(i));
    assert(s.take(i + 1).last() == s[i]);
}

/// Every side effect that the filter keeps has the level, and the filter of a
/// sequence in which every side effect has the level is the sequence itself.
pub proof fn lemma_with_lvl(s: StepView, lvl: SecurityLvl)
    ensures
        forall|j: int|
            0 <= j < with_lvl(s, lvl).len() ==> (#[trigger] with_lvl(s, lvl)[j]).security_lvl
                == lvl,
        (forall|i: int| 0 <= i < s.len() ==> (#[trigger] s[i]).security_lvl == lvl) ==> with_lvl(
            s,
            lvl,
        ) == s,
        (forall|i: int| 0 <= i < s.len() ==> (#[trigger] s[i]).security_lvl != lvl) ==> with_lvl(
            s,
            lvl,
        ).len() == 0,
    decreases s.len(),
{
    reveal(Seq::filter);
    if s.len() > 0 {
        lemma_with_lvl(s.drop_last(), lvl);
        if forall|i: int| 0 <= i < s.len() ==> (#[trigger] s[i]).security_lvl == lvl {
            assert forall|i: int| 0 <= i < s.drop_last().len() implies (
            #[trigger] s.drop_last()[i]).security_lvl == lvl by {
                assert(s.drop_last()[i] == s[i]);
            }
            assert(s.drop_last().push(s.last()) =~= s);
        }
        if forall|i: int| 0 <= i < s.len() ==> (#[trigger] s[i]).security_lvl != lvl {
            assert forall|i: int| 0 <= i < s.drop_last().len() implies (
            #[trigger] s.drop_last()[i]).security_lvl != lvl by {
                assert(s.drop_last()[i] == s[i]);
            }
        }
    }
}

/// The side effects of a step that have the level `lvl`, in their order.
pub fn select_lvl(fsxs: &Vec<FullSideEffect>, lvl: SecurityLvl) -> (r: Vec<FullSideEffect>)
    ensures
        r.deep_view() == with_lvl(fsxs.deep_view(), lvl),
{
    let ghost s = fsxs.deep_view();
    let mut out: Vec<FullSideEffect> = Vec::new();
    let mut i: usize = 0;
    proof {
        assert(s.take(0) =~= Seq::<FullSideEffectView>::empty());
        reveal(Seq::filter);
        assert(out.deep_view() =~= with_lvl(s.take(0), lvl));
    }
    while i < fsxs.len()
        invariant
            i <= fsxs.len(),
            s == fsxs.deep_view(),
            out.deep_view() == with_lvl(s.take(i as int), lvl),
        decreases fsxs.len() - i,
    {
        proof {
            lemma_with_lvl_take(s, i as int, lvl);
            assert(s[i as int] == fsxs@[i as int].deep_view());
        }
        if fsxs[i].security_lvl == lvl {
            let ghost before = out.deep_view();
            out.push(fsxs[i].clone());
            assert(out.deep_view() =~= before.push(s[i as int]));
        }
        i += 1;
    }
    assert(s.take(fsxs.len() as int) =~= s);
    out
}

/// Orders the side effects of a bundle for execution: escrowed first, optimistic
/// next, dirty last; within a level the submission order stays.
pub fn order_by_security_lvl(fsxs: &Vec<FullSideEffect>) -> (r: Vec<FullSideEffect>)
    ensures
        r.deep_view() == execution_order(fsxs.deep_view()),
{
    let mut out = select_lvl(fsxs, SecurityLvl::Escrowed);
    let optimistic = select_lvl(fsxs, SecurityLvl::Optimistic);
    let dirty = select_lvl(fsxs, SecurityLvl::Dirty);
    let ghost s = fsxs.deep_view();
    let mut i: usize = 0;
    while i < optimistic.len()
        invariant
            i <= optimistic.len(),
            out.deep_view() == with_lvl(s, SecurityLvl::Escrowed) + optimistic.deep_view().take(
                i as int,
            ),
        decreases optimistic.len() - i,
    {
        let ghost before = out.deep_view();
        out.push(optimistic[i].clone());
        assert(out.deep_view() =~= before.push(optimistic.deep_view()[i as int]));
        assert(optimistic.deep_view().take(i + 1) =~= optimistic.deep_view().take(i as int).push(
            optimistic.deep_view()[i as int],
        ));
        assert(out.deep_view() =~= with_lvl(s, SecurityLvl::Escrowed)
            + optimistic.deep_view().take(i + 1));
        i += 1;
    }
    assert(optimistic.deep_view().take(optimistic.len() as int) =~= optimistic.deep_view());
    let mut k: usize = 0;
    while k < dirty.len()
        invariant
            k <= dirty.len(),
            out.deep_view() == clean_part(s) + dirty.deep_view().take(k as int),
        decreases dirty.len() - k,
    {
        let ghost before = out.deep_view();
        out.push(dirty[k].clone());
        assert(out.deep_view() =~= before.push(dirty.deep_view()[k as int]));
        assert(dirty.deep_view().take(k + 1) =~= dirty.deep_view().take(k as int).push(
            dirty.deep_view()[k as int],
        ));
        assert(out.deep_view() =~= clean_part(s) + dirty.deep_view().take(k + 1));
        k += 1;
    }
    assert(dirty.deep_view().take(dirty.len() as int) =~= dirty.deep_view());
    out
}

/// Lays the side effects of a bundle out in steps: those that are not dirty share
/// the first step, in execution order, and each dirty one gets a step of its own.
pub fn arrange_steps(fsxs: &Vec<FullSideEffect>) -> (r: Vec<Vec<FullSideEffect>>)
    ensures
        r.deep_view() == steps_layout(fsxs.deep_view()),
{
    let ghost s = fsxs.deep_view();
    let mut steps: Vec<Vec<FullSideEffect>> = Vec::new();
    if fsxs.len() == 0 {
        steps.push(Vec::new());
        assert(steps.deep_view() =~= seq![Seq::<FullSideEffectView>::empty()]) by {
            assert(steps@[0].deep_view() =~= Seq::<FullSideEffectView>::empty());
        }
        return steps;
    }
    let escrowed = select_lvl(fsxs, SecurityLvl::Escrowed);
    let optimistic = select_lvl(fsxs, SecurityLvl::Optimistic);
    let dirty = select_lvl(fsxs, SecurityLvl::Dirty);
    let mut first = escrowed;
    let mut i: usize = 0;
    while i < optimistic.len()
        invariant
            i <= optimistic.len(),
            first.deep_view() == with_lvl(s, SecurityLvl::Escrowed) + optimistic.deep_view().take(
                i as int,
            ),
        decreases optimistic.len() - i,
    {
        let ghost before = first.deep_view();
        first.push(optimistic[i].clone());
        assert(first.deep_view() =~= before.push(optimistic.deep_view()[i as int]));
        assert(optimistic.deep_view().take(i + 1) =~= optimistic.deep_view().take(i as int).push(
            optimistic.deep_view()[i as int],
        ));
        assert(first.deep_view() =~= with_lvl(s, SecurityLvl::Escrowed)
            + optimistic.deep_view().take(i + 1));
        i += 1;
    }
    assert(optimistic.deep_view().take(optimistic.len() as int) =~= optimistic.deep_view());
    assert(first.deep_view() == clean_part(s));
    let ghost head: StepsView = if first.len() > 0 {
        seq![clean_part(s)]
    } else {
        Seq::empty()
    };
    if first.len() > 0 {
        steps.push(first);
    }
    assert(steps.deep_view() =~= head);
    let mut k: usize = 0;
    while k < dirty.len()
        invariant
            k <= dirty.len(),
            dirty.deep_view() == dirty_part(s),
            steps.deep_view() == head + singletons(dirty_part(s).take(k as int)),
        decreases dirty.len() - k,
    {
        let ghost before = steps.deep_view();
        let mut own: Vec<FullSideEffect> = Vec::new();
        own.push(dirty[k].clone());
        assert(own.deep_view() =~= seq![dirty_part(s)[k as int]]);
        steps.push(own);
        assert(steps.deep_view() =~= before.push(seq![dirty_part(s)[k as int]]));
        assert(singletons(dirty_part(s).take(k + 1)) =~= singletons(
            dirty_part(s).take(k as int),
        ).push(seq![dirty_part(s)[k as int]]));
        assert(steps.deep_view() =~= head + singletons(dirty_part(s).take(k + 1)));
        k += 1;
    }
    assert(dirty_part(s).take(dirty.len() as int) =~= dirty_part(s));
    steps
}

/// In the steps of a bundle a dirty side effect is alone in its step, and no step
/// after a dirty one holds a side effect that is not dirty.
pub proof fn lemma_layout_isolates_dirty(s: StepView)
    ensures
        forall|k: int, j: int|
            0 <= k < steps_layout(s).len() && 0 <= j < steps_layout(s)[k].len() && (
            #[trigger] steps_layout(s)[k][j]).security_lvl == SecurityLvl::Dirty
                ==> steps_layout(s)[k].len() == 1,
        forall|k1: int, j1: int, k2: int, j2: int|
            0 <= k1 < k2 < steps_layout(s).len() && 0 <= j1 < steps_layout(s)[k1].len() && 0
                <= j2 < steps_layout(s)[k2].len() && (
            #[trigger] steps_layout(s)[k1][j1]).security_lvl == SecurityLvl::Dirty ==> (
            #[trigger] steps_layout(s)[k2][j2]).security_lvl == SecurityLvl::Dirty,
{
    lemma_with_lvl(s, SecurityLvl::Escrowed);
    lemma_with_lvl(s, SecurityLvl::Optimistic);
    lemma_with_lvl(s, SecurityLvl::Dirty);
    let layout = steps_layout(s);
    let clean = clean_part(s);
    let dirty = dirty_part(s);
    assert forall|j: int| 0 <= j < clean.len() implies (#[trigger] clean[j]).security_lvl
        != SecurityLvl::Dirty by {
        if j < with_lvl(s, SecurityLvl::Escrowed).len() {
            assert(clean[j] == with_lvl(s, SecurityLvl::Escrowed)[j]);
        } else {
            assert(clean[j] == with_lvl(s, SecurityLvl::Optimistic)[j - with_lvl(
                s,
                SecurityLvl::Escrowed,
            ).len()]);
        }
    }
    if s.len() == 0 {
    } else if clean.len() == 0 {
        assert forall|k: int| 0 <= k < layout.len() implies (#[trigger] layout[k]) == seq![
            dirty[k],
        ] by {}
    } else {
        assert(layout[0] == clean);
        assert forall|k: int| 1 <= k < layout.len() implies (#[trigger] layout[k]) == seq![
            dirty[k - 1],
        ] by {}
    }
}

/// A bundle of dirty side effects only has one step for each of them.
pub proof fn lemma_all_dirty_layout(s: StepView)
    requires
        s.len() > 0,
        forall|i: int| 0 <= i < s.len() ==> (#[trigger] s[i]).security_lvl == SecurityLvl::Dirty,
    ensures
        steps_layout(s) == singletons(s),
        steps_layout(s).len() == s.len(),
        forall|i: int| 0 <= i < s.len() ==> (#[trigger] steps_layout(s)[i]) == seq![s[i]],
{
    lemma_with_lvl(s, SecurityLvl::Escrowed);
    lemma_with_lvl(s, SecurityLvl::Optimistic);
    lemma_with_lvl(s, SecurityLvl::Dirty);
}

/// The number of side effects in the steps of a bundle is that of the bundle, and
/// no step is empty unless the bundle is.
pub proof fn lemma_layout_steps(s: StepView)
    ensures
        0 < steps_layout(s).len() <= s.len() + 1,
        s.len() > 0 ==> steps_layout(s).len() <= s.len(),
        s.len() > 0 ==> forall|k: int|
            0 <= k < steps_layout(s).len() ==> (#[trigger] steps_layout(s)[k]).len() > 0,
        forall|k: int, j: int|
            0 <= k < steps_layout(s).len() && 0 <= j < steps_layout(s)[k].len() ==> s.contains(
                #[trigger] steps_layout(s)[k][j],
            ),
{
    s.lemma_filter_len(|f: FullSideEffectView| f.security_lvl == SecurityLvl::Escrowed);
    s.lemma_filter_len(|f: FullSideEffectView| f.security_lvl == SecurityLvl::Optimistic);
    s.lemma_filter_len(|f: FullSideEffectView| f.security_lvl == SecurityLvl::Dirty);
    let layout = steps_layout(s);
    let clean = clean_part(s);
    let dirty = dirty_part(s);
    let esc = with_lvl(s, SecurityLvl::Escrowed);
    let opt = with_lvl(s, SecurityLvl::Optimistic);
    assert forall|j: int| 0 <= j < dirty.len() implies s.contains(#[trigger] dirty[j]) by {
        assert(dirty.contains(dirty[j]));
        s.lemma_filter_contains_rev(
            |f: FullSideEffectView| f.security_lvl == SecurityLvl::Dirty,
            dirty[j],
        );
    }
    assert forall|j: int| 0 <= j < clean.len() implies s.contains(#[trigger] clean[j]) by {
        if j < esc.len() {
            assert(clean[j] == esc[j]);
            assert(esc.contains(esc[j]));
            s.lemma_filter_contains_rev(
                |f: FullSideEffectView| f.security_lvl == SecurityLvl::Escrowed,
                esc[j],
            );
        } else {
            assert(clean[j] == opt[j - esc.len()]);
            assert(opt.contains(opt[j - esc.len()]));
            s.lemma_filter_contains_rev(
                |f: FullSideEffectView| f.security_lvl == SecurityLvl::Optimistic,
                opt[j - esc.len()],
            );
        }
    }
    lemma_partition_len(s);
    if s.len() == 0 {
        assert(layout[0].len() == 0);
    } else if clean.len() == 0 {
        assert forall|k: int| 0 <= k < layout.len() implies (#[trigger] layout[k]) == seq![
            dirty[k],
        ] by {}
    } else {
        assert(layout[0] == clean);
        assert forall|k: int| 1 <= k < layout.len() implies (#[trigger] layout[k]) == seq![
            dirty[k - 1],
        ] by {}
    }
}

/// The three levels part a bundle: the parts have as many side effects as the bundle.
pub proof fn lemma_partition_len(s: StepView)
    ensures
        clean_part(s).len() + dirty_part(s).len() == s.len(),
    decreases s.len(),
{
    reveal(Seq::filter);
    if s.len() > 0 {
        lemma_partition_len(s.drop_last());
    }
}

/// A side effect as it enters the Circuit: unconfirmed, at the given level.
pub fn new_full_side_effect(
    side_effect: &SideEffect,
    security_lvl: SecurityLvl,
    submission_target_height: Vec<u8>,
) -> (r: FullSideEffect)
    ensures
        r.deep_view() == (FullSideEffectView {
            input: side_effect.deep_view(),
            confirmed: None,
            security_lvl,
            submission_target_height: submission_target_height@,
        }),
{
    FullSideEffect {
        input: side_effect.clone(),
        confirmed: None,
        security_lvl,
        submission_target_height,
    }
}

/// The side effects of a step that have the level `security_lvl`, in their order;
/// none when the step vector has no step `step`.
pub fn step_fsx_by_security_lvl(
    steps: &Vec<Vec<FullSideEffect>>,
    step: usize,
    security_lvl: SecurityLvl,
) -> (r: Vec<FullSideEffect>)
    ensures
        r.deep_view() == (if step < steps.deep_view().len() {
            with_lvl(steps.deep_view()[step as int], security_lvl)
        } else {
            Seq::<FullSideEffectView>::empty()
        }),
{
    if step < steps.len() {
        assert(steps.deep_view()[step as int] == steps@[step as int].deep_view());
        select_lvl(&steps[step], security_lvl)
    } else {
        let r: Vec<FullSideEffect> = Vec::new();
        assert(r.deep_view() =~= Seq::<FullSideEffectView>::empty());
        r
    }
}

/// The sum of the prizes of some side effects.
pub open spec fn total_rewards(s: StepView) -> int
    decreases s.len(),
{
    if s.len() == 0 {
        0
    } else {
        total_rewards(s.drop_last()) + s.last().input.prize
    }
}

/// The sum of the prizes of some side effects, or the largest amount if the sum
/// exceeds it.
pub fn fsx_total_rewards(fsxs: &Vec<FullSideEffect>) -> (r: Balance)
    ensures
        r == (if total_rewards(fsxs.deep_view()) <= Balance::MAX {
            total_rewards(fsxs.deep_view())
        } else {
            Balance::MAX as int
        }),
{
    let ghost s = fsxs.deep_view();
    let mut acc: Balance = 0;
    let mut i: usize = 0;
    assert(s.take(0) =~= Seq::<FullSideEffectView>::empty());
    while i < fsxs.len()
        invariant
            i <= fsxs.len(),
            s == fsxs.deep_view(),
            total_rewards(s.take(i as int)) >= 0,
            acc == (if total_rewards(s.take(i as int)) <= Balance::MAX {
                total_rewards(s.take(i as int))
            } else {
                Balance::MAX as int
            }),
        decreases fsxs.len() - i,
    {
        proof {
            assert(s.take(i + 1).drop_last() =~= s.take(i as int));
            assert(s.take(i + 1).last() == fsxs@[i as int].deep_view());
        }
        acc = acc.saturating_add(fsxs[i].input.prize);
        i += 1;
    }
    assert(s.take(fsxs.len() as int) =~= s);
    acc
}

} // verus!
