//! The phases of the lifecycle that need a collaborator: validation, settlement
//! and confirmation.
//!
//! Each phase is split in two. What the Circuit decides is a function of plain
//! values with an exact contract: the classification of a side effect, the plan of
//! a settlement, the attachment of a confirmation. What a collaborator answers is
//! taken as it comes, and the contract of the phase says what holds of every answer.
use crate::error::{
    Error, CONFIRMATION_FAILED, EMPTY_STEP, EXECUTION_UNCONFIRMED, HEIGHT_NOT_FOUND,
    NO_SIDE_EFFECTS,
};
use crate::identity::{
    bundle_encodable, encodable, side_effect_id, step_encodable, steps_encodable,
};
use crate::interfaces::{AccountManager, EscrowTrait, Portal, SideEffectsProtocol, Xdns};
use crate::optimistic::{slashed, unbond_payments, unbonded, Optimistic};
use crate::primitives::{
    clone_bytes, same_target, AccountId, Balance, BenefitSource, BlockNumber, CircuitRole,
    ConfirmedSideEffect, ConfirmedSideEffectView, FullSideEffect, FullSideEffectView,
    GatewayType, Outcome, SecurityLvl, SideEffect, SideEffectId, SideEffectView, StepView,
    StepsView, TargetId, H256,
};
use crate::status::{
    step_all_confirmed, step_any_confirmed, unconfirmed_after, BondStatus, CircuitStatus,
    Deposits, InsuranceDeposit,
};
use crate::validator::{
    arrange_steps, check_insurance_reward, determine_dirty_vs_escrowed_lvl, gateway_lvl,
    is_local_gateway, local_gateway, new_full_side_effect, steps_layout,
};
use crate::xtx::{
    confirm_order, confirmed_step, lemma_position_in_step, position_in_step, LocalXtxCtx,
    LocalXtxCtxView,
};
use vstd::prelude::*;

verus! {

/// Reason given for a side effect whose action is too short to name an operation.
pub const ACTION_TOO_SHORT: &'static str = "Side effect action must hold four bytes";

/// Reason given for a side effect with a byte string or a list of arguments that
/// is too long to be encoded.
pub const NOT_ENCODABLE: &'static str = "Side effect is too long to be encoded";

/// What the collaborators answered at the admission of one side effect.
pub enum Admission {
    /// The side effect declares insurance.
    Insured {
        /// The insurance that it declares.
        insurance: Balance,
        /// The last finalized height of its target.
        height: Seq<u8>,
    },
    /// The side effect declares no insurance.
    Plain {
        /// The kind of its gateway.
        gateway_type: GatewayType,
        /// The last finalized height of its target.
        height: Seq<u8>,
    },
}

/// The side effect as it is admitted: unconfirmed, optimistic with insurance and
/// else at the level of its gateway.
pub open spec fn admitted(sfx: SideEffectView, answer: Admission) -> FullSideEffectView {
    match answer {
        Admission::Insured { insurance, height } => FullSideEffectView {
            input: sfx,
            confirmed: None,
            security_lvl: SecurityLvl::Optimistic,
            submission_target_height: height,
        },
        Admission::Plain { gateway_type, height } => FullSideEffectView {
            input: sfx,
            confirmed: None,
            security_lvl: gateway_lvl(gateway_type),
            submission_target_height: height,
        },
    }
}

/// The side effects of a bundle as they are admitted, in submission order.
pub open spec fn admitted_all(sfx: Seq<SideEffectView>, answers: Seq<Admission>) -> StepView {
    Seq::new(sfx.len(), |i: int| admitted(sfx[i], answers[i]))
}

/// The deposit that an insured side effect asks for: its reward is the prize, and
/// nothing is bonded yet.
pub open spec fn requested_deposit(
    sfx: SideEffectView,
    insurance: Balance,
    requester: AccountId,
    now: BlockNumber,
) -> (SideEffectId, InsuranceDeposit) {
    (
        side_effect_id(sfx),
        InsuranceDeposit {
            insurance,
            reward: sfx.prize,
            reserved_bond: 0,
            requester,
            bonded_relayer: None,
            status: BondStatus::Requested,
            requested_at: now,
            bonded_at: None,
        },
    )
}

/// The deposits that a bundle asks for: one for each insured side effect, in
/// submission order.
pub open spec fn admitted_deposits(
    sfx: Seq<SideEffectView>,
    answers: Seq<Admission>,
    requester: AccountId,
    now: BlockNumber,
) -> Deposits
    decreases sfx.len(),
{
    if sfx.len() == 0 || answers.len() != sfx.len() {
        Seq::empty()
    } else {
        let rest = admitted_deposits(sfx.drop_last(), answers.drop_last(), requester, now);
        match answers.last() {
            Admission::Insured { insurance, .. } => rest.push(
                requested_deposit(sfx.last(), insurance, requester, now),
            ),
            Admission::Plain { .. } => rest,
        }
    }
}

/// The height at which a side effect is admitted, from the answer of the portal:
/// the last finalized height of the target; a target without one is refused, and
/// a refusal of the portal is handed on.
pub fn finalized_height(answer: Result<Option<Vec<u8>>, &'static str>) -> (r: Result<
    Vec<u8>,
    &'static str,
>)
    ensures
        r == (match answer {
            Ok(Some(height)) => Ok::<Vec<u8>, &'static str>(height),
            Ok(None) => Err::<Vec<u8>, &'static str>(HEIGHT_NOT_FOUND),
            Err(e) => Err::<Vec<u8>, &'static str>(e),
        }),
{
    match answer {
        Ok(Some(height)) => Ok(height),
        Ok(None) => Err(HEIGHT_NOT_FOUND),
        Err(e) => Err(e),
    }
}

/// Phase two: validates a bundle and lays it out in the steps of the working copy.
///
/// For each side effect, in submission order, the name service gives the ABI of
/// the gateway, the protocol checks the arguments and tells the insurance, the
/// reward of the insurance must be the prize, and the portal gives the height of
/// the target. A side effect with insurance is optimistic and gets a deposit; any
/// other is escrowed or dirty by its gateway. The side effects are then ordered
/// and laid out in steps.
///
/// A bundle without side effects is refused, and so is a side effect that is too
/// long to be encoded. On any refusal the steps of the working copy stay as they
/// are.
pub fn validate<X: Xdns, P: Portal, S: SideEffectsProtocol>(
    xdns: &X,
    portal: &P,
    protocol: &mut S,
    now: BlockNumber,
    side_effects: &Vec<SideEffect>,
    local_ctx: &mut LocalXtxCtx,
    requester: &AccountId,
    _sequential: bool,
) -> (r: Result<(), &'static str>)
    ensures
        side_effects@.len() == 0 ==> r == Err::<(), &'static str>(NO_SIDE_EFFECTS),
        side_effects@.len() > 0 && !encodable(side_effects.deep_view()[0]) ==> r == Err::<
            (),
            &'static str,
        >(NOT_ENCODABLE),
        !bundle_encodable(side_effects.deep_view()) ==> r is Err,
        r is Ok ==> final(local_ctx).encodable(),
        final(local_ctx).xtx_id == old(local_ctx).xtx_id,
        final(local_ctx).xtx.deep_view() == old(local_ctx).xtx.deep_view(),
        r is Err ==> final(local_ctx).full_side_effects.deep_view() == old(local_ctx).full_side_effects.deep_view(),
        r is Ok ==> exists|answers: Seq<Admission>|
            {
                &&& answers.len() == side_effects@.len()
                &&& final(local_ctx).full_side_effects.deep_view() == steps_layout(
                    #[trigger] admitted_all(side_effects.deep_view(), answers),
                )
                &&& final(local_ctx).insurance_deposits@ == old(local_ctx).insurance_deposits@
                    + admitted_deposits(side_effects.deep_view(), answers, *requester, now)
            },
{
    if side_effects.len() == 0 {
        return Err(NO_SIDE_EFFECTS);
    }
    let ghost sfx = side_effects.deep_view();
    let ghost before = old(local_ctx).insurance_deposits@;
    let ghost mut answers: Seq<Admission> = Seq::empty();
    let mut full_side_effects: Vec<FullSideEffect> = Vec::new();
    let mut i: usize = 0;
    assert(sfx.take(0) =~= Seq::empty());
    assert(full_side_effects.deep_view() =~= admitted_all(sfx.take(0), answers));
    assert(local_ctx.insurance_deposits@ =~= before + admitted_deposits(
        sfx.take(0),
        answers,
        *requester,
        now,
    ));
    while i < side_effects.len()
        invariant
            i <= side_effects.len(),
            sfx == side_effects.deep_view(),
            before == old(local_ctx).insurance_deposits@,
            answers.len() == i,
            local_ctx.xtx_id == old(local_ctx).xtx_id,
            local_ctx.xtx.deep_view() == old(local_ctx).xtx.deep_view(),
            local_ctx.full_side_effects.deep_view() == old(local_ctx).full_side_effects.deep_view(),
            full_side_effects.deep_view() == admitted_all(sfx.take(i as int), answers),
            forall|k: int| 0 <= k < i ==> encodable(#[trigger] sfx[k]),
            local_ctx.insurance_deposits@ == before + admitted_deposits(
                sfx.take(i as int),
                answers,
                *requester,
                now,
            ),
        decreases side_effects.len() - i,
    {
        let side_effect = &side_effects[i];
        assert(sfx[i as int] == side_effect.deep_view());
        if !side_effect.is_encodable() {
            return Err(NOT_ENCODABLE);
        }
        let gateway_abi = match xdns.get_abi(side_effect.target) {
            Ok(abi) => abi,
            Err(e) => {
                return Err(e);
            },
        };
        let allowed_side_effects = xdns.allowed_side_effects(&side_effect.target);
        protocol.notice_gateway(side_effect.target, allowed_side_effects);
        match protocol.validate_args(side_effect, &gateway_abi, &mut local_ctx.local_state) {
            Ok(_) => {},
            Err(e) => {
                return Err(e);
            },
        }
        let insurance_and_reward = match protocol.check_if_insurance_required(
            side_effect,
            &mut local_ctx.local_state,
        ) {
            Ok(answer) => answer,
            Err(e) => {
                return Err(e);
            },
        };
        match check_insurance_reward(side_effect.prize, insurance_and_reward) {
            Ok(_) => {},
            Err(e) => {
                return Err(e);
            },
        }
        match insurance_and_reward {
            Some(pair) => {
                local_ctx.insurance_deposits.push(
                    (
                        side_effect.generate_id(),
                        InsuranceDeposit::new(pair[0], pair[1], 0, *requester, now),
                    ),
                );
            },
            None => {},
        }
        let submission_target_height = match finalized_height(
            portal.get_latest_finalized_height(side_effect.target),
        ) {
            Ok(height) => height,
            Err(e) => {
                return Err(e);
            },
        };
        let ghost flat_before = full_side_effects.deep_view();
        let ghost answer;
        match insurance_and_reward {
            Some(pair) => {
                proof {
                    answer = Admission::Insured {
                        insurance: pair[0],
                        height: submission_target_height@,
                    };
                }
                full_side_effects.push(
                    new_full_side_effect(
                        side_effect,
                        SecurityLvl::Optimistic,
                        submission_target_height,
                    ),
                );
            },
            None => {
                let gateway_type = xdns.get_gateway_type_unsafe(&side_effect.target);
                proof {
                    answer = Admission::Plain { gateway_type, height: submission_target_height@ };
                }
                full_side_effects.push(
                    new_full_side_effect(
                        side_effect,
                        determine_dirty_vs_escrowed_lvl(gateway_type),
                        submission_target_height,
                    ),
                );
            },
        }
        proof {
            let old_answers = answers;
            answers = answers.push(answer);
            assert(sfx.take(i + 1).drop_last() =~= sfx.take(i as int));
            assert(sfx.take(i + 1).last() == sfx[i as int]);
            assert(answers.drop_last() =~= old_answers);
            assert(full_side_effects.deep_view() =~= flat_before.push(admitted(sfx[i as int], answer)));
            assert(full_side_effects.deep_view() =~= admitted_all(sfx.take(i + 1), answers)) by {
                assert forall|k: int| 0 <= k < i + 1 implies full_side_effects.deep_view()[k]
                    == admitted_all(sfx.take(i + 1), answers)[k] by {
                    if k < i {
                        assert(flat_before[k] == admitted(sfx.take(i as int)[k], old_answers[k]));
                    }
                }
            }
            assert(local_ctx.insurance_deposits@ =~= before + admitted_deposits(
                sfx.take(i + 1),
                answers,
                *requester,
                now,
            ));
        }
        i += 1;
    }
    assert(sfx.take(side_effects.len() as int) =~= sfx);
    local_ctx.full_side_effects = arrange_steps(&full_side_effects);
    proof {
        let flat = admitted_all(sfx, answers);
        let steps = steps_layout(flat);
        crate::validator::lemma_layout_steps(flat);
        assert forall|s: int, j: int|
            0 <= s < steps.len() && 0 <= j < steps[s].len() implies encodable(
            (#[trigger] steps[s][j]).input,
        ) by {
            assert(flat.contains(steps[s][j]));
            let k = choose|k: int| 0 <= k < flat.len() && flat[k] == steps[s][j];
            assert(flat[k].input == sfx[k]);
        }
    }
    Ok(())
}

/// The identifiers of the side effects of a step that execute locally, in their
/// order, where `kinds` holds the kind of the gateway of each: those on the
/// Circuit's own gateway, and those on the first programmable internal gateway.
pub open spec fn step_local_ids(
    step: StepView,
    self_gateway: TargetId,
    kinds: Seq<GatewayType>,
) -> Seq<SideEffectId>
    decreases step.len(),
{
    if step.len() == 0 || kinds.len() != step.len() {
        Seq::empty()
    } else {
        let rest = step_local_ids(step.drop_last(), self_gateway, kinds.drop_last());
        if local_gateway(step.last().input.target == self_gateway, kinds.last()) {
            rest.push(side_effect_id(step.last().input))
        } else {
            rest
        }
    }
}

/// The identifiers of the side effects of a bundle that execute locally, in the
/// order of the steps.
pub open spec fn local_ids(
    steps: StepsView,
    self_gateway: TargetId,
    kinds: Seq<Seq<GatewayType>>,
) -> Seq<SideEffectId>
    decreases steps.len(),
{
    if steps.len() == 0 || kinds.len() != steps.len() {
        Seq::empty()
    } else {
        local_ids(steps.drop_last(), self_gateway, kinds.drop_last()) + step_local_ids(
            steps.last(),
            self_gateway,
            kinds.last(),
        )
    }
}

/// The identifiers are those of the side effects of the steps that execute
/// locally, for some kinds that the name service gave their gateways.
pub open spec fn local_ids_fit(
    ids: Seq<SideEffectId>,
    steps: StepsView,
    self_gateway: TargetId,
) -> bool {
    exists|kinds: Seq<Seq<GatewayType>>|
        {
            &&& kinds.len() == steps.len()
            &&& forall|s: int| 0 <= s < steps.len() ==> (#[trigger] kinds[s]).len() == steps[s].len()
            &&& ids == #[trigger] local_ids(steps, self_gateway, kinds)
        }
}

/// The identifiers of the side effects of a bundle that execute locally, in the
/// order of the steps: those whose target is the Circuit's own gateway, and
/// those whose gateway the name service calls the first programmable internal one.
pub fn local_side_effect_ids<X: Xdns>(
    xdns: &X,
    self_gateway_id: &TargetId,
    steps: &Vec<Vec<FullSideEffect>>,
) -> (r: Vec<SideEffectId>)
    requires
        steps_encodable(steps.deep_view()),
    ensures
        local_ids_fit(r@, steps.deep_view(), *self_gateway_id),
{
    let ghost sv = steps.deep_view();
    let ghost mut kinds: Seq<Seq<GatewayType>> = Seq::empty();
    let mut ids: Vec<SideEffectId> = Vec::new();
    let mut s: usize = 0;
    assert(sv.take(0) =~= Seq::empty());
    while s < steps.len()
        invariant
            s <= steps.len(),
            sv == steps.deep_view(),
            steps_encodable(sv),
            kinds.len() == s,
            forall|k: int| 0 <= k < s ==> (#[trigger] kinds[k]).len() == sv[k].len(),
            ids@ == local_ids(sv.take(s as int), *self_gateway_id, kinds),
        decreases steps.len() - s,
    {
        let step = &steps[s];
        let ghost step_view = sv[s as int];
        let ghost head = ids@;
        let ghost mut row: Seq<GatewayType> = Seq::empty();
        assert(step_view == step.deep_view());
        assert(step_view.take(0) =~= Seq::empty());
        let mut j: usize = 0;
        while j < step.len()
            invariant
                j <= step.len(),
                step_view == step.deep_view(),
                step_encodable(step_view),
                row.len() == j,
                ids@ == head + step_local_ids(step_view.take(j as int), *self_gateway_id, row),
            decreases step.len() - j,
        {
            let fsx = &step[j];
            assert(step_view[j as int] == fsx.deep_view());
            assert(encodable(step_view[j as int].input));
            let is_self = same_target(&fsx.input.target, self_gateway_id);
            let ghost kind;
            let local = if is_self {
                proof {
                    kind = GatewayType::TxOnly(0);
                }
                true
            } else {
                let answer = xdns.get_gateway_type_unsafe(&fsx.input.target);
                proof {
                    kind = answer;
                }
                is_local_gateway(false, answer)
            };
            if local {
                ids.push(fsx.input.generate_id());
            }
            proof {
                let old_row = row;
                row = row.push(kind);
                assert(step_view.take(j + 1).drop_last() =~= step_view.take(j as int));
                assert(step_view.take(j + 1).last() == step_view[j as int]);
                assert(row.drop_last() =~= old_row);
                assert(ids@ =~= head + step_local_ids(
                    step_view.take(j + 1),
                    *self_gateway_id,
                    row,
                ));
            }
            j += 1;
        }
        proof {
            let old_kinds = kinds;
            kinds = kinds.push(row);
            assert(step_view.take(step.len() as int) =~= step_view);
            assert(sv.take(s + 1).drop_last() =~= sv.take(s as int));
            assert(sv.take(s + 1).last() == step_view);
            assert(kinds.drop_last() =~= old_kinds);
        }
        s += 1;
    }
    assert(sv.take(steps.len() as int) =~= sv);
    ids
}

/// One instruction to the account manager.
#[derive(Clone, Copy, Debug, PartialEq, Eq)]
pub enum Settlement {
    /// Open a charge.
    Deposit {
        charge_id: H256,
        payer: AccountId,
        charge_fee: Balance,
        offered_reward: Balance,
        source: BenefitSource,
        role: CircuitRole,
    },
    /// Settle a charge; a refusal fails the settlement.
    Finalize {
        charge_id: H256,
        outcome: Outcome,
        recipient: Option<AccountId>,
        actual_fees: Option<Balance>,
    },
    /// Settle a charge if there is one.
    TryFinalize { charge_id: H256, outcome: Outcome },
}

/// The charges of the requester: for every side effect of the step with a prize,
/// in their order, the prize is deposited under the identifier of the side effect.
pub open spec fn reward_charges(step: StepView, requester: AccountId) -> Seq<Settlement>
    decreases step.len(),
{
    if step.len() == 0 {
        Seq::empty()
    } else {
        let rest = reward_charges(step.drop_last(), requester);
        if step.last().input.prize > 0 {
            rest.push(
                Settlement::Deposit {
                    charge_id: side_effect_id(step.last().input),
                    payer: requester,
                    charge_fee: 0,
                    offered_reward: step.last().input.prize,
                    source: BenefitSource::TrafficRewards,
                    role: CircuitRole::Requester,
                },
            )
        } else {
            rest
        }
    }
}

/// The charge of an executor for an execution over the bus.
pub open spec fn execution_charge(charge: (H256, AccountId, Balance)) -> Seq<Settlement> {
    seq![
        Settlement::Deposit {
            charge_id: charge.0,
            payer: charge.1,
            charge_fee: charge.2,
            offered_reward: 0,
            source: BenefitSource::TrafficFees,
            role: CircuitRole::Executor,
        },
    ]
}

/// The reverts of a step: the charge of every side effect is closed with `Revert`.
pub open spec fn revert_charges(step: StepView) -> Seq<Settlement> {
    Seq::new(
        step.len(),
        |i: int|
            Settlement::TryFinalize {
                charge_id: side_effect_id(step[i].input),
                outcome: Outcome::Revert,
            },
    )
}

/// The commits of a step: the charge of every side effect is closed with
/// `Commit`, in favour of the account that executed it, at the cost that it claims.
pub open spec fn commit_charges(step: StepView) -> Seq<Settlement> {
    Seq::new(
        step.len(),
        |i: int|
            Settlement::Finalize {
                charge_id: side_effect_id(step[i].input),
                outcome: Outcome::Commit,
                recipient: Some(step[i].confirmed->Some_0.executioner),
                actual_fees: step[i].confirmed->Some_0.cost,
            },
    )
}

/// Every instruction of the plan opens a charge.
pub open spec fn only_deposits(plan: Seq<Settlement>) -> bool {
    forall|i: int| 0 <= i < plan.len() ==> (#[trigger] plan[i]) is Deposit
}

/// The charges of the requester are deposits.
pub proof fn lemma_reward_charges(step: StepView, requester: AccountId)
    ensures
        only_deposits(reward_charges(step, requester)),
    decreases step.len(),
{
    if step.len() > 0 {
        lemma_reward_charges(step.drop_last(), requester);
    }
}

/// The settlement that the status of a transaction calls for, over the side
/// effects of its current step:
/// - `Requested`: the charges of the requester, who must be given;
/// - `Ready`, `PendingExecution`: the charge of the executor, which must be given;
/// - the revert family: the reverts of the step;
/// - `Finished`, `FinishedAllSteps`: the commits of the step, every side effect
///   of which must be confirmed;
/// - any other status: nothing.
pub open spec fn square_up_plan(
    status: CircuitStatus,
    step: StepView,
    maybe_requester_charge: Option<AccountId>,
    maybe_xbi_execution_charge: Option<(H256, AccountId, Balance)>,
) -> Result<Seq<Settlement>, Error> {
    match status {
        CircuitStatus::Requested => match maybe_requester_charge {
            Some(requester) => Ok(reward_charges(step, requester)),
            None => Err(Error::ChargingTransferFailed),
        },
        CircuitStatus::PendingExecution | CircuitStatus::Ready => match maybe_xbi_execution_charge {
            Some(charge) => Ok(execution_charge(charge)),
            None => Err(Error::ChargingTransferFailed),
        },
        CircuitStatus::RevertTimedOut
        | CircuitStatus::Reverted
        | CircuitStatus::RevertMisbehaviour
        | CircuitStatus::RevertKill => Ok(revert_charges(step)),
        CircuitStatus::Finished | CircuitStatus::FinishedAllSteps => if step_all_confirmed(step) {
            Ok(commit_charges(step))
        } else {
            Err(Error::CriticalStateSquareUpCalledToFinishWithoutFsxConfirmed)
        },
        _ => Ok(Seq::empty()),
    }
}

/// The charges of the requester for a step.
fn plan_reward_charges(step: &Vec<FullSideEffect>, requester: &AccountId) -> (r: Vec<Settlement>)
    requires
        step_encodable(step.deep_view()),
    ensures
        r@ == reward_charges(step.deep_view(), *requester),
{
    let ghost s = step.deep_view();
    let mut plan: Vec<Settlement> = Vec::new();
    let mut i: usize = 0;
    assert(s.take(0) =~= Seq::empty());
    while i < step.len()
        invariant
            i <= step.len(),
            s == step.deep_view(),
            step_encodable(s),
            plan@ == reward_charges(s.take(i as int), *requester),
        decreases step.len() - i,
    {
        proof {
            assert(s.take(i + 1).drop_last() =~= s.take(i as int));
            assert(s.take(i + 1).last() == step@[i as int].deep_view());
        }
        let fsx = &step[i];
        assert(encodable(s[i as int].input));
        if fsx.input.prize > 0 {
            plan.push(
                Settlement::Deposit {
                    charge_id: fsx.input.generate_id(),
                    payer: *requester,
                    charge_fee: 0,
                    offered_reward: fsx.input.prize,
                    source: BenefitSource::TrafficRewards,
                    role: CircuitRole::Requester,
                },
            );
        }
        i += 1;
    }
    assert(s.take(step.len() as int) =~= s);
    plan
}

/// The reverts of a step.
fn plan_revert_charges(step: &Vec<FullSideEffect>) -> (r: Vec<Settlement>)
    requires
        step_encodable(step.deep_view()),
    ensures
        r@ == revert_charges(step.deep_view()),
{
    let ghost s = step.deep_view();
    let mut plan: Vec<Settlement> = Vec::new();
    let mut i: usize = 0;
    while i < step.len()
        invariant
            i <= step.len(),
            s == step.deep_view(),
            step_encodable(s),
            plan@.len() == i,
            forall|k: int| 0 <= k < i ==> plan@[k] == revert_charges(s)[k],
        decreases step.len() - i,
    {
        assert(s[i as int] == step@[i as int].deep_view());
        assert(encodable(s[i as int].input));
        plan.push(
            Settlement::TryFinalize {
                charge_id: step[i].input.generate_id(),
                outcome: Outcome::Revert,
            },
        );
        i += 1;
    }
    assert(plan@ =~= revert_charges(s));
    plan
}

/// The commits of a step, if every side effect of it is confirmed.
fn plan_commit_charges(step: &Vec<FullSideEffect>) -> (r: Option<Vec<Settlement>>)
    requires
        step_encodable(step.deep_view()),
    ensures
        match r {
            Some(plan) => step_all_confirmed(step.deep_view()) && plan@ == commit_charges(
                step.deep_view(),
            ),
            None => !step_all_confirmed(step.deep_view()),
        },
{
    let ghost s = step.deep_view();
    let mut plan: Vec<Settlement> = Vec::new();
    let mut i: usize = 0;
    while i < step.len()
        invariant
            i <= step.len(),
            s == step.deep_view(),
            step_encodable(s),
            plan@.len() == i,
            forall|k: int| 0 <= k < i ==> (#[trigger] s[k]).confirmed is Some,
            forall|k: int| 0 <= k < i ==> plan@[k] == commit_charges(s)[k],
        decreases step.len() - i,
    {
        assert(s[i as int] == step@[i as int].deep_view());
        assert(encodable(s[i as int].input));
        match &step[i].confirmed {
            Some(confirmed) => {
                plan.push(
                    Settlement::Finalize {
                        charge_id: step[i].input.generate_id(),
                        outcome: Outcome::Commit,
                        recipient: Some(confirmed.executioner),
                        actual_fees: confirmed.cost,
                    },
                );
            },
            None => {
                assert(s[i as int].confirmed is None);
                return None;
            },
        }
        i += 1;
    }
    assert(plan@ =~= commit_charges(s));
    Some(plan)
}

/// Plans the settlement that the status of a working copy calls for.
pub fn plan_square_up(
    local_ctx: &LocalXtxCtx,
    maybe_requester_charge: Option<AccountId>,
    maybe_xbi_execution_charge: Option<(H256, AccountId, Balance)>,
) -> (r: Result<Vec<Settlement>, Error>)
    requires
        local_ctx.encodable(),
    ensures
        match square_up_plan(
            local_ctx.xtx.status,
            local_ctx.current_step(),
            maybe_requester_charge,
            maybe_xbi_execution_charge,
        ) {
            Ok(plan) => r is Ok && r->Ok_0@ == plan,
            Err(e) => r == Err::<Vec<Settlement>, Error>(e),
        },
{
    let nothing: Vec<FullSideEffect> = Vec::new();
    assert(nothing.deep_view() =~= Seq::<FullSideEffectView>::empty());
    let step = if local_ctx.has_current_step() {
        let cursor = local_ctx.xtx.steps_cnt.0 as usize;
        assert(local_ctx.full_side_effects.deep_view()[cursor as int]
            == local_ctx.full_side_effects@[cursor as int].deep_view());
        &local_ctx.full_side_effects[cursor]
    } else {
        &nothing
    };
    assert(step.deep_view() == local_ctx.current_step());
    match local_ctx.xtx.status {
        CircuitStatus::Requested => match maybe_requester_charge {
            Some(requester) => Ok(plan_reward_charges(step, &requester)),
            None => Err(Error::ChargingTransferFailed),
        },
        CircuitStatus::PendingExecution | CircuitStatus::Ready => match maybe_xbi_execution_charge {
            Some(charge) => {
                let mut plan: Vec<Settlement> = Vec::new();
                plan.push(
                    Settlement::Deposit {
                        charge_id: charge.0,
                        payer: charge.1,
                        charge_fee: charge.2,
                        offered_reward: 0,
                        source: BenefitSource::TrafficFees,
                        role: CircuitRole::Executor,
                    },
                );
                assert(plan@ =~= execution_charge(charge));
                Ok(plan)
            },
            None => Err(Error::ChargingTransferFailed),
        },
        CircuitStatus::RevertTimedOut
        | CircuitStatus::Reverted
        | CircuitStatus::RevertMisbehaviour
        | CircuitStatus::RevertKill => Ok(plan_revert_charges(step)),
        CircuitStatus::Finished | CircuitStatus::FinishedAllSteps => match plan_commit_charges(
            step,
        ) {
            Some(plan) => Ok(plan),
            None => Err(Error::CriticalStateSquareUpCalledToFinishWithoutFsxConfirmed),
        },
        _ => {
            let plan: Vec<Settlement> = Vec::new();
            assert(plan@ =~= Seq::<Settlement>::empty());
            Ok(plan)
        },
    }
}

/// Hands a plan to the account manager, instruction by instruction, and stops
/// at the first refusal: `ChargingTransferFailed` for a deposit,
/// `FinalizeSquareUpFailed` for a commit. A plan without deposits and commits
/// cannot fail.
pub fn settle<A: AccountManager>(account_manager: &mut A, plan: &Vec<Settlement>) -> (r: Result<
    (),
    Error,
>)
    ensures
        match r {
            Ok(_) => true,
            Err(e) => exists|i: int|
                0 <= i < plan@.len() && match #[trigger] plan@[i] {
                    Settlement::Deposit { .. } => e == Error::ChargingTransferFailed,
                    Settlement::Finalize { .. } => e == Error::FinalizeSquareUpFailed,
                    Settlement::TryFinalize { .. } => false,
                },
        },
{
    let mut i: usize = 0;
    while i < plan.len()
        invariant
            i <= plan.len(),
        decreases plan.len() - i,
    {
        match plan[i] {
            Settlement::Deposit { charge_id, payer, charge_fee, offered_reward, source, role } => {
                match account_manager.deposit(
                    charge_id,
                    &payer,
                    charge_fee,
                    offered_reward,
                    source,
                    role,
                    None,
                ) {
                    Ok(_) => {},
                    Err(_) => {
                        return Err(Error::ChargingTransferFailed);
                    },
                }
            },
            Settlement::Finalize { charge_id, outcome, recipient, actual_fees } => {
                match account_manager.finalize(charge_id, outcome, recipient, actual_fees) {
                    Ok(_) => {},
                    Err(_) => {
                        return Err(Error::FinalizeSquareUpFailed);
                    },
                }
            },
            Settlement::TryFinalize { charge_id, outcome } => {
                let _ = account_manager.try_finalize(charge_id, outcome, None, None);
            },
        }
        i += 1;
    }
    Ok(())
}

/// The deposits of a working copy after a settlement that went through: slashed
/// in the revert family, unbonded for a transaction that finished, else as they were.
pub open spec fn squared_deposits(status: CircuitStatus, deposits: Deposits, step: StepView) -> Deposits {
    if status.is_revert() {
        slashed(deposits)
    } else if status is Finished || status is FinishedAllSteps {
        unbonded(deposits, step)
    } else {
        deposits
    }
}

/// Phase three: settles fees and charges as the status of the working copy asks.
///
/// The plan is that of `square_up_plan`. Where the plan is refused, the
/// settlement fails with the error of the plan before any collaborator is
/// called. Else the account manager gets the plan; for the revert family the
/// bonds are then slashed, and for a finished transaction they are given back.
/// In the revert family the settlement cannot fail. On failure the working copy
/// stays as it is.
pub fn square_up<A: AccountManager, E: EscrowTrait>(
    account_manager: &mut A,
    escrow: &mut E,
    escrow_account: &AccountId,
    local_ctx: &mut LocalXtxCtx,
    maybe_requester_charge: Option<AccountId>,
    maybe_xbi_execution_charge: Option<(H256, AccountId, Balance)>,
) -> (r: Result<(), Error>)
    requires
        old(local_ctx).encodable(),
    ensures
        final(local_ctx).encodable(),
        match square_up_plan(
            old(local_ctx).xtx.status,
            old(local_ctx).current_step(),
            maybe_requester_charge,
            maybe_xbi_execution_charge,
        ) {
            Err(e) => r == Err::<(), Error>(e),
            Ok(plan) => {
                &&& old(local_ctx).xtx.status.is_revert() ==> r is Ok
                &&& plan.len() == 0 && !(old(local_ctx).xtx.status is Finished) && !(old(local_ctx).xtx.status is FinishedAllSteps) ==> r is Ok
                &&& r is Err ==> if old(local_ctx).xtx.status is Finished || old(local_ctx).xtx.status is FinishedAllSteps {
                    ||| r->Err_0 == Error::FinalizeSquareUpFailed
                    ||| r->Err_0 == Error::RefundTransferFailed
                    ||| r->Err_0 == Error::RewardTransferFailed
                } else {
                    r->Err_0 == Error::ChargingTransferFailed
                }
            },
        },
        final(local_ctx).deep_view() == (LocalXtxCtxView {
            insurance_deposits: if r is Ok {
                squared_deposits(
                    old(local_ctx).xtx.status,
                    old(local_ctx).insurance_deposits@,
                    old(local_ctx).current_step(),
                )
            } else {
                old(local_ctx).insurance_deposits@
            },
            ..old(local_ctx).deep_view()
        }),
{
    let plan = match plan_square_up(local_ctx, maybe_requester_charge, maybe_xbi_execution_charge) {
        Ok(plan) => plan,
        Err(e) => {
            return Err(e);
        },
    };
    proof {
        lemma_reward_charges(
            local_ctx.current_step(),
            match maybe_requester_charge {
                Some(requester) => requester,
                None => *escrow_account,
            },
        );
    }
    match settle(account_manager, &plan) {
        Ok(_) => {},
        Err(e) => {
            return Err(e);
        },
    }
    if local_ctx.xtx.status.in_revert_family() {
        Optimistic::try_slash(escrow, escrow_account, &mut local_ctx.insurance_deposits);
        Ok(())
    } else {
        match local_ctx.xtx.status {
            CircuitStatus::Finished | CircuitStatus::FinishedAllSteps => {
                let nothing: Vec<FullSideEffect> = Vec::new();
                assert(nothing.deep_view() =~= Seq::<FullSideEffectView>::empty());
                if local_ctx.has_current_step() {
                    let cursor = local_ctx.xtx.steps_cnt.0 as usize;
                    assert(local_ctx.full_side_effects.deep_view()[cursor as int]
                        == local_ctx.full_side_effects@[cursor as int].deep_view());
                    Optimistic::try_unbond(
                        escrow,
                        escrow_account,
                        &mut local_ctx.insurance_deposits,
                        &local_ctx.full_side_effects[cursor],
                    )
                } else {
                    Optimistic::try_unbond(
                        escrow,
                        escrow_account,
                        &mut local_ctx.insurance_deposits,
                        &nothing,
                    )
                }
            },
            _ => Ok(()),
        }
    }
}

/// The four bytes that name the operation of a side effect.
pub fn action_id(side_effect: &SideEffect) -> (r: Option<[u8; 4]>)
    ensures
        match r {
            Some(id) => side_effect.encoded_action@.len() >= 4 && id@
                == side_effect.encoded_action@.take(4),
            None => side_effect.encoded_action@.len() < 4,
        },
{
    if side_effect.encoded_action.len() < 4 {
        return None;
    }
    let id = [
        side_effect.encoded_action[0],
        side_effect.encoded_action[1],
        side_effect.encoded_action[2],
        side_effect.encoded_action[3],
    ];
    assert(id@ =~= side_effect.encoded_action@.take(4));
    Some(id)
}

/// What the attachment of a confirmation makes of the steps of a working copy:
/// the current step takes it, by `confirmed_step`. A side effect that is too
/// long to be encoded or whose action is too short is refused first, and a cursor
/// without a step is an empty step.
pub open spec fn confirmed_steps(
    ctx: LocalXtxCtxView,
    side_effect: SideEffectView,
    confirmation: ConfirmedSideEffectView,
) -> Result<StepsView, &'static str> {
    let cursor = ctx.xtx.steps_cnt.0 as int;
    if !encodable(side_effect) {
        Err(NOT_ENCODABLE)
    } else if side_effect.encoded_action.len() < 4 {
        Err(ACTION_TOO_SHORT)
    } else if cursor >= ctx.full_side_effects.len() {
        Err(EMPTY_STEP)
    } else {
        match confirmed_step(
            ctx.full_side_effects[cursor],
            side_effect_id(side_effect),
            confirmation,
        ) {
            Ok(step) => Ok(ctx.full_side_effects.update(cursor, step)),
            Err(e) => Err(e),
        }
    }
}

/// A confirmation goes to the current step and to nothing else: the steps that
/// take it differ from the steps before in one side effect of the current step,
/// which had no confirmation and now has the one given; and where no step after
/// the cursor held a confirmation, none holds one after.
pub proof fn lemma_confirmation_in_current_step(
    ctx: LocalXtxCtxView,
    side_effect: SideEffectView,
    confirmation: ConfirmedSideEffectView,
)
    requires
        confirmed_steps(ctx, side_effect, confirmation) is Ok,
    ensures
        ({
            let cursor = ctx.xtx.steps_cnt.0 as int;
            let at = position_in_step(ctx.full_side_effects[cursor], side_effect_id(side_effect));
            let after = confirmed_steps(ctx, side_effect, confirmation)->Ok_0;
            &&& 0 <= cursor < ctx.full_side_effects.len()
            &&& 0 <= at < ctx.full_side_effects[cursor].len()
            &&& after.len() == ctx.full_side_effects.len()
            &&& forall|s: int|
                0 <= s < after.len() && s != cursor ==> #[trigger] after[s]
                    == ctx.full_side_effects[s]
            &&& after[cursor].len() == ctx.full_side_effects[cursor].len()
            &&& forall|j: int|
                0 <= j < after[cursor].len() && j != at ==> #[trigger] after[cursor][j]
                    == ctx.full_side_effects[cursor][j]
            &&& ctx.full_side_effects[cursor][at].confirmed is None
            &&& after[cursor][at] == (FullSideEffectView {
                confirmed: Some(confirmation),
                ..ctx.full_side_effects[cursor][at]
            })
            &&& side_effect_id(after[cursor][at].input) == side_effect_id(side_effect)
            &&& unconfirmed_after(ctx.full_side_effects, cursor) ==> unconfirmed_after(
                after,
                cursor,
            )
        }),
{
    let cursor = ctx.xtx.steps_cnt.0 as int;
    let step = ctx.full_side_effects[cursor];
    lemma_position_in_step(step, side_effect_id(side_effect));
    let after = confirmed_steps(ctx, side_effect, confirmation)->Ok_0;
    if unconfirmed_after(ctx.full_side_effects, cursor) {
        assert forall|s: int| cursor < s < after.len() implies !step_any_confirmed(
            #[trigger] after[s],
        ) by {
            assert(after[s] == ctx.full_side_effects[s]);
        }
    }
}

/// The decoded parameters of a confirmation, from the answer of the portal: a
/// refusal of the portal, whatever its reason, fails the confirmation.
pub fn decoded_or_refused(answer: Result<(Vec<Vec<u8>>, Vec<u8>), &'static str>) -> (r: Result<
    (Vec<Vec<u8>>, Vec<u8>),
    &'static str,
>)
    ensures
        r == (match answer {
            Ok(decoded) => Ok::<(Vec<Vec<u8>>, Vec<u8>), &'static str>(decoded),
            Err(_) => Err::<(Vec<Vec<u8>>, Vec<u8>), &'static str>(CONFIRMATION_FAILED),
        }),
{
    match answer {
        Ok(decoded) => Ok(decoded),
        Err(_) => Err(CONFIRMATION_FAILED),
    }
}

/// The result of a confirmation, from the answer of the protocol: a refusal of
/// the protocol, whatever its reason, leaves the execution unconfirmed.
pub fn protocol_verdict(answer: Result<(), &'static str>) -> (r: Result<(), &'static str>)
    ensures
        r == (match answer {
            Ok(_) => Ok::<(), &'static str>(()),
            Err(_) => Err::<(), &'static str>(EXECUTION_UNCONFIRMED),
        }),
{
    match answer {
        Ok(_) => Ok(()),
        Err(_) => Err(EXECUTION_UNCONFIRMED),
    }
}

/// Confirms a side effect of the current step.
///
/// The confirmation is attached to the side effect of the current step that
/// has the identifier of `side_effect`; where `confirmed_steps` refuses, the call
/// fails with that reason and the working copy stays as it is. The portal then
/// checks the inclusion proof against the height at admission, and the protocol
/// checks the decoded parameters; a refusal of either fails the call, as
/// `decoded_or_refused` and `protocol_verdict` say, and a refusal of the name
/// service fails it with the reason of the name service. The confirmation is
/// then still attached to the working copy, which the caller drops.
pub fn confirm<X: Xdns, P: Portal, S: SideEffectsProtocol>(
    xdns: &X,
    portal: &P,
    protocol: &S,
    local_ctx: &mut LocalXtxCtx,
    _relayer: &AccountId,
    side_effect: &SideEffect,
    confirmation: &ConfirmedSideEffect,
) -> (r: Result<(), &'static str>)
    requires
        old(local_ctx).encodable(),
    ensures
        final(local_ctx).encodable(),
        match confirmed_steps(
            old(local_ctx).deep_view(),
            side_effect.deep_view(),
            confirmation.deep_view(),
        ) {
            Err(e) => r == Err::<(), &'static str>(e) && final(local_ctx).deep_view() == old(local_ctx).deep_view(),
            Ok(steps) => final(local_ctx).deep_view() == (LocalXtxCtxView {
                full_side_effects: steps,
                ..old(local_ctx).deep_view()
            }),
        },
{
    if !side_effect.is_encodable() {
        return Err(NOT_ENCODABLE);
    }
    let side_effect_id = match action_id(side_effect) {
        Some(id) => id,
        None => {
            return Err(ACTION_TOO_SHORT);
        },
    };
    if !local_ctx.has_current_step() {
        return Err(EMPTY_STEP);
    }
    let cursor = local_ctx.xtx.steps_cnt.0 as usize;
    let ghost steps_before = local_ctx.full_side_effects.deep_view();
    assert(steps_before[cursor as int] == local_ctx.full_side_effects@[cursor as int].deep_view());
    let id = side_effect.generate_id();
    let fsx = match confirm_order(&id, confirmation, &mut local_ctx.full_side_effects[cursor]) {
        Ok(fsx) => fsx,
        Err(e) => {
            proof {
                let after = local_ctx.full_side_effects.deep_view();
                assert forall|k: int| 0 <= k < after.len() implies after[k] == steps_before[k] by {
                    assert(after[k] == local_ctx.full_side_effects@[k].deep_view());
                    if k != cursor {
                        assert(steps_before[k] == old(local_ctx).full_side_effects@[k].deep_view());
                    }
                }
                assert(after =~= steps_before);
            }
            return Err(e);
        },
    };
    proof {
        let after = local_ctx.full_side_effects.deep_view();
        let expected = confirmed_steps(
            old(local_ctx).deep_view(),
            side_effect.deep_view(),
            confirmation.deep_view(),
        )->Ok_0;
        assert forall|k: int| 0 <= k < after.len() implies after[k] == expected[k] by {
            assert(after[k] == local_ctx.full_side_effects@[k].deep_view());
            if k != cursor {
                assert(steps_before[k] == old(local_ctx).full_side_effects@[k].deep_view());
            }
        }
        assert(after =~= expected);
    }
    let (params, source) = match decoded_or_refused(
        portal.confirm_and_decode_payload_params(
            side_effect.target,
            fsx.submission_target_height,
            clone_bytes(&confirmation.inclusion_data),
            side_effect_id,
        ),
    ) {
        Ok(decoded) => decoded,
        Err(e) => {
            return Err(e);
        },
    };
    let side_effect_interface = match xdns.fetch_side_effect_interface(side_effect_id) {
        Ok(interface) => interface,
        Err(e) => {
            return Err(e);
        },
    };
    let security_coordinates = match xdns.get_gateway_security_coordinates(&side_effect.target) {
        Ok(coordinates) => coordinates,
        Err(e) => {
            return Err(e);
        },
    };
    let mut id_bytes: Vec<u8> = Vec::new();
    let mut b: usize = 0;
    while b < 32
        invariant
            b <= 32,
        decreases 32 - b,
    {
        id_bytes.push(id[b]);
        b += 1;
    }
    let verdict = protocol_verdict(
        protocol.confirmation_plug(
            &side_effect_interface,
            params,
            source,
            &local_ctx.local_state,
            Some(id_bytes),
            fsx.security_lvl,
            security_coordinates,
        ),
    );
    verdict
}

} // verus!
