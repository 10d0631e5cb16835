//! Optimistic bonding: how an executor bonds the insurance of a side effect, and
//! what becomes of the bonds when the execution transaction ends.
//!
//! Every operation is guarded by the status of the deposit alone, so that a second
//! call finds nothing left to do.
use crate::error::Error;
use crate::interfaces::EscrowTrait;
use crate::primitives::{same_hash, AccountId, BlockNumber, FullSideEffect, SideEffectId, StepView};
use crate::status::{BondStatus, Deposits, InsuranceDeposit};
use crate::xtx::{find_in_step, position_in_step};
use vstd::prelude::*;

verus! {

/// The position of the first deposit of the side effect; the number of deposits
/// if it has none.
pub open spec fn deposit_position(deposits: Deposits, sfx_id: SideEffectId) -> int
    decreases deposits.len(),
{
    if deposits.len() == 0 {
        0
    } else if deposits[0].0 == sfx_id {
        0
    } else {
        1 + deposit_position(deposits.skip(1), sfx_id)
    }
}

/// `deposit_position` finds the first deposit of the side effect.
pub proof fn lemma_deposit_position(deposits: Deposits, sfx_id: SideEffectId)
    ensures
        0 <= deposit_position(deposits, sfx_id) <= deposits.len(),
        deposit_position(deposits, sfx_id) < deposits.len() ==> deposits[deposit_position(
            deposits,
            sfx_id,
        )].0 == sfx_id,
        forall|i: int|
            0 <= i < deposit_position(deposits, sfx_id) ==> (#[trigger] deposits[i]).0 != sfx_id,
    decreases deposits.len(),
{
    if deposits.len() == 0 {
    } else if deposits[0].0 == sfx_id {
    } else {
        let rest = deposits.skip(1);
        lemma_deposit_position(rest, sfx_id);
        let p = deposit_position(rest, sfx_id);
        assert forall|i: int| 0 <= i < 1 + p implies (#[trigger] deposits[i]).0 != sfx_id by {
            if i > 0 {
                assert(rest[i - 1] == deposits[i]);
            }
        }
        if p < rest.len() {
            assert(rest[p] == deposits[p + 1]);
        }
    }
}

/// Finds the first deposit of a side effect.
pub fn find_deposit(deposits: &Vec<(SideEffectId, InsuranceDeposit)>, sfx_id: &SideEffectId) -> (r:
    usize)
    ensures
        r == deposit_position(deposits@, *sfx_id),
{
    let mut i: usize = 0;
    while i < deposits.len()
        invariant
            i <= deposits.len(),
            forall|k: int| 0 <= k < i ==> (#[trigger] deposits@[k]).0 != *sfx_id,
        decreases deposits.len() - i,
    {
        if same_hash(&deposits[i].0, sfx_id) {
            proof {
                lemma_deposit_position(deposits@, *sfx_id);
            }
            return i;
        }
        i += 1;
    }
    proof {
        lemma_deposit_position(deposits@, *sfx_id);
    }
    i
}

/// A deposit once `executor` has bonded its insurance at block `now`.
pub open spec fn bonded_deposit(
    deposit: InsuranceDeposit,
    executor: AccountId,
    now: BlockNumber,
) -> InsuranceDeposit {
    InsuranceDeposit {
        reserved_bond: deposit.insurance,
        bonded_relayer: Some(executor),
        status: BondStatus::Bonded,
        bonded_at: Some(now),
        ..deposit
    }
}

/// Whether the bond of a side effect can be taken: an error where it has no
/// deposit or where its deposit is bonded already.
pub open spec fn bond_request(deposits: Deposits, sfx_id: SideEffectId) -> Result<int, Error> {
    let at = deposit_position(deposits, sfx_id);
    if at >= deposits.len() {
        Err(Error::InsuranceBondNotRequired)
    } else if deposits[at].1.bonded_relayer is Some || !(deposits[at].1.status is Requested) {
        Err(Error::InsuranceBondAlreadyDeposited)
    } else {
        Ok(at)
    }
}

/// A deposit after a slash: a bond that was held goes to the slashing pool.
pub open spec fn slashed_deposit(deposit: InsuranceDeposit) -> InsuranceDeposit {
    if deposit.status is Bonded {
        InsuranceDeposit { status: BondStatus::Slashed, ..deposit }
    } else {
        deposit
    }
}

/// The deposits after a slash.
pub open spec fn slashed(deposits: Deposits) -> Deposits {
    Seq::new(deposits.len(), |i: int| (deposits[i].0, slashed_deposit(deposits[i].1)))
}

/// A transfer of the escrow currency.
#[derive(Clone, Copy, Debug, PartialEq, Eq)]
pub struct Transfer {
    pub source: AccountId,
    pub dest: AccountId,
    pub value: crate::primitives::Balance,
}

/// The refunds of a slash: for every bond that is held, in the order of the
/// deposits, the reward goes from the escrow back to the requester.
pub open spec fn slash_refunds(deposits: Deposits, escrow: AccountId) -> Seq<Transfer>
    decreases deposits.len(),
{
    if deposits.len() == 0 {
        Seq::empty()
    } else {
        let rest = slash_refunds(deposits.drop_last(), escrow);
        let last = deposits.last().1;
        if last.status is Bonded {
            rest.push(Transfer { source: escrow, dest: last.requester, value: last.reward })
        } else {
            rest
        }
    }
}

/// The bond of the deposit can go back: it is held, its executor is known, and
/// the side effect is confirmed in the step.
pub open spec fn releasable(
    entry: (SideEffectId, InsuranceDeposit),
    step: StepView,
) -> bool {
    &&& entry.1.status is Bonded
    &&& entry.1.bonded_relayer is Some
    &&& position_in_step(step, entry.0) < step.len()
    &&& step[position_in_step(step, entry.0)].confirmed is Some
}

/// A deposit after its bond went back.
pub open spec fn unbonded_deposit(
    entry: (SideEffectId, InsuranceDeposit),
    step: StepView,
) -> InsuranceDeposit {
    if releasable(entry, step) {
        InsuranceDeposit { status: BondStatus::Unbonded, ..entry.1 }
    } else {
        entry.1
    }
}

/// The deposits after the bonds of the confirmed side effects of a step went back.
pub open spec fn unbonded(deposits: Deposits, step: StepView) -> Deposits {
    Seq::new(deposits.len(), |i: int| (deposits[i].0, unbonded_deposit(deposits[i], step)))
}

/// The payments of an unbonding: for every bond that can go back, in the order of
/// the deposits, the bond goes from the escrow to its executor, and then the
/// reward to the account that executed the side effect.
pub open spec fn unbond_payments(deposits: Deposits, step: StepView, escrow: AccountId) -> Seq<
    Transfer,
>
    decreases deposits.len(),
{
    if deposits.len() == 0 {
        Seq::empty()
    } else {
        let rest = unbond_payments(deposits.drop_last(), step, escrow);
        let last = deposits.last();
        if releasable(last, step) {
            rest.push(
                Transfer {
                    source: escrow,
                    dest: last.1.bonded_relayer->Some_0,
                    value: last.1.reserved_bond,
                },
            ).push(
                Transfer {
                    source: escrow,
                    dest: step[position_in_step(step, last.0)].confirmed->Some_0.executioner,
                    value: last.1.reward,
                },
            )
        } else {
            rest
        }
    }
}

/// A second slash finds nothing to do.
pub proof fn lemma_slash_idempotent(deposits: Deposits, escrow: AccountId)
    ensures
        slashed(slashed(deposits)) == slashed(deposits),
        slash_refunds(slashed(deposits), escrow) == Seq::<Transfer>::empty(),
    decreases deposits.len(),
{
    assert(slashed(slashed(deposits)) =~= slashed(deposits));
    if deposits.len() > 0 {
        lemma_slash_idempotent(deposits.drop_last(), escrow);
        assert(slashed(deposits).drop_last() =~= slashed(deposits.drop_last()));
    }
}

/// A second unbonding finds nothing to do.
pub proof fn lemma_unbond_idempotent(deposits: Deposits, step: StepView, escrow: AccountId)
    ensures
        unbonded(unbonded(deposits, step), step) == unbonded(deposits, step),
        unbond_payments(unbonded(deposits, step), step, escrow) == Seq::<Transfer>::empty(),
    decreases deposits.len(),
{
    assert(unbonded(unbonded(deposits, step), step) =~= unbonded(deposits, step));
    if deposits.len() > 0 {
        lemma_unbond_idempotent(deposits.drop_last(), step, escrow);
        assert(unbonded(deposits, step).drop_last() =~= unbonded(deposits.drop_last(), step));
    }
}

/// A deposit that is bonded takes no second bond.
pub proof fn lemma_bond_once(
    deposits: Deposits,
    sfx_id: SideEffectId,
    executor: AccountId,
    now: BlockNumber,
)
    requires
        bond_request(deposits, sfx_id) is Ok,
    ensures
        bond_request(
            deposits.update(
                bond_request(deposits, sfx_id)->Ok_0,
                (
                    sfx_id,
                    bonded_deposit(deposits[bond_request(deposits, sfx_id)->Ok_0].1, executor, now),
                ),
            ),
            sfx_id,
        ) == Err::<int, Error>(Error::InsuranceBondAlreadyDeposited),
{
    let at = bond_request(deposits, sfx_id)->Ok_0;
    let after = deposits.update(at, (sfx_id, bonded_deposit(deposits[at].1, executor, now)));
    lemma_deposit_position(deposits, sfx_id);
    lemma_deposit_position(after, sfx_id);
    let again = deposit_position(after, sfx_id);
    assert(after[at].0 == sfx_id);
    if again < at {
        assert(after[again] == deposits[again]);
    }
}

/// The operations of optimistic bonding.
pub struct Optimistic {}

impl Optimistic {
    /// The transfer that a bond asks of the escrow: the insurance of the deposit
    /// goes from the executor to the escrow account. No transfer is planned, with
    /// the error of `bond_request`, where the side effect has no deposit or its
    /// deposit is bonded.
    pub fn plan_bond(
        insurance_deposits: &Vec<(SideEffectId, InsuranceDeposit)>,
        sfx_id: SideEffectId,
        executor: &AccountId,
        escrow_account: &AccountId,
    ) -> (r: Result<Transfer, Error>)
        ensures
            r == (match bond_request(insurance_deposits@, sfx_id) {
                Err(e) => Err::<Transfer, Error>(e),
                Ok(at) => Ok::<Transfer, Error>(
                    Transfer {
                        source: *executor,
                        dest: *escrow_account,
                        value: insurance_deposits@[at].1.insurance,
                    },
                ),
            }),
    {
        proof {
            lemma_deposit_position(insurance_deposits@, sfx_id);
        }
        let at = find_deposit(insurance_deposits, &sfx_id);
        if at >= insurance_deposits.len() {
            return Err(Error::InsuranceBondNotRequired);
        }
        let deposit = insurance_deposits[at].1;
        if deposit.bonded_relayer.is_some() {
            return Err(Error::InsuranceBondAlreadyDeposited);
        }
        match deposit.status {
            BondStatus::Requested => {},
            _ => {
                return Err(Error::InsuranceBondAlreadyDeposited);
            },
        }
        Ok(Transfer { source: *executor, dest: *escrow_account, value: deposit.insurance })
    }

    /// Bonds the insurance of a side effect for `executor`: the escrow is asked
    /// for the transfer of `plan_bond`, and the deposit records the executor and
    /// the block. Returns the deposit as it then stands.
    ///
    /// It fails, and the deposits stay as they are, with
    /// `InsuranceBondNotRequired` where the side effect has no deposit, with
    /// `InsuranceBondAlreadyDeposited` where its deposit is bonded, and with
    /// `InsuranceBondTooLow` where the escrow refuses the transfer.
    pub fn bond_4_sfx<E: EscrowTrait>(
        escrow: &mut E,
        escrow_account: &AccountId,
        now: BlockNumber,
        executor: &AccountId,
        insurance_deposits: &mut Vec<(SideEffectId, InsuranceDeposit)>,
        sfx_id: SideEffectId,
    ) -> (r: Result<InsuranceDeposit, Error>)
        ensures
            match bond_request(old(insurance_deposits)@, sfx_id) {
                Err(e) => r == Err::<InsuranceDeposit, Error>(e) && final(insurance_deposits)@
                    == old(insurance_deposits)@,
                Ok(at) => match r {
                    Ok(deposit) => deposit == bonded_deposit(
                        old(insurance_deposits)@[at].1,
                        *executor,
                        now,
                    ) && final(insurance_deposits)@ == old(insurance_deposits)@.update(
                        at,
                        (sfx_id, deposit),
                    ),
                    Err(e) => e == Error::InsuranceBondTooLow && final(insurance_deposits)@
                        == old(insurance_deposits)@,
                },
            },
    {
        let transfer = match Self::plan_bond(insurance_deposits, sfx_id, executor, escrow_account) {
            Ok(transfer) => transfer,
            Err(e) => {
                return Err(e);
            },
        };
        match escrow.transfer(&transfer.source, &transfer.dest, transfer.value) {
            Ok(_) => {},
            Err(_) => {
                return Err(Error::InsuranceBondTooLow);
            },
        }
        proof {
            lemma_deposit_position(insurance_deposits@, sfx_id);
        }
        let at = find_deposit(insurance_deposits, &sfx_id);
        let deposit = insurance_deposits[at].1;
        let bonded = InsuranceDeposit {
            insurance: deposit.insurance,
            reward: deposit.reward,
            reserved_bond: deposit.insurance,
            requester: deposit.requester,
            bonded_relayer: Some(*executor),
            status: BondStatus::Bonded,
            requested_at: deposit.requested_at,
            bonded_at: Some(now),
        };
        insurance_deposits[at] = (sfx_id, bonded);
        Ok(bonded)
    }

    /// What a slash does to the deposits, and the refunds that it owes.
    pub fn plan_slash(
        insurance_deposits: &Vec<(SideEffectId, InsuranceDeposit)>,
        escrow_account: &AccountId,
    ) -> (r: (Vec<(SideEffectId, InsuranceDeposit)>, Vec<Transfer>))
        ensures
            r.0@ == slashed(insurance_deposits@),
            r.1@ == slash_refunds(insurance_deposits@, *escrow_account),
    {
        let ghost d = insurance_deposits@;
        let mut deposits: Vec<(SideEffectId, InsuranceDeposit)> = Vec::new();
        let mut refunds: Vec<Transfer> = Vec::new();
        let mut i: usize = 0;
        assert(d.take(0) =~= Seq::empty());
        while i < insurance_deposits.len()
            invariant
                i <= insurance_deposits.len(),
                d == insurance_deposits@,
                deposits@ == slashed(d.take(i as int)),
                refunds@ == slash_refunds(d.take(i as int), *escrow_account),
            decreases insurance_deposits.len() - i,
        {
            proof {
                assert(d.take(i + 1).drop_last() =~= d.take(i as int));
                assert(d.take(i + 1).last() == d[i as int]);
            }
            let (id, deposit) = insurance_deposits[i];
            match deposit.status {
                BondStatus::Bonded => {
                    refunds.push(
                        Transfer {
                            source: *escrow_account,
                            dest: deposit.requester,
                            value: deposit.reward,
                        },
                    );
                    deposits.push(
                        (
                            id,
                            InsuranceDeposit {
                                insurance: deposit.insurance,
                                reward: deposit.reward,
                                reserved_bond: deposit.reserved_bond,
                                requester: deposit.requester,
                                bonded_relayer: deposit.bonded_relayer,
                                status: BondStatus::Slashed,
                                requested_at: deposit.requested_at,
                                bonded_at: deposit.bonded_at,
                            },
                        ),
                    );
                },
                _ => {
                    deposits.push((id, deposit));
                },
            }
            assert(deposits@ =~= slashed(d.take(i + 1)));
            i += 1;
        }
        assert(d.take(insurance_deposits.len() as int) =~= d);
        (deposits, refunds)
    }

    /// Slashes the bonds that are held: each goes to the slashing pool, which the
    /// escrow account keeps, and the reward of its side effect goes back to the
    /// requester. A refund that the escrow refuses is left to the host.
    pub fn try_slash<E: EscrowTrait>(
        escrow: &mut E,
        escrow_account: &AccountId,
        insurance_deposits: &mut Vec<(SideEffectId, InsuranceDeposit)>,
    )
        ensures
            final(insurance_deposits)@ == slashed(old(insurance_deposits)@),
    {
        let (deposits, refunds) = Optimistic::plan_slash(insurance_deposits, escrow_account);
        let mut i: usize = 0;
        while i < refunds.len()
            invariant
                i <= refunds.len(),
            decreases refunds.len() - i,
        {
            let refund = refunds[i];
            let _ = escrow.transfer(&refund.source, &refund.dest, refund.value);
            i += 1;
        }
        *insurance_deposits = deposits;
    }

    /// What an unbonding does to the deposits, and the payments that it owes.
    pub fn plan_unbond(
        insurance_deposits: &Vec<(SideEffectId, InsuranceDeposit)>,
        step: &Vec<FullSideEffect>,
        escrow_account: &AccountId,
    ) -> (r: (Vec<(SideEffectId, InsuranceDeposit)>, Vec<Transfer>))
        requires
            crate::identity::step_encodable(step.deep_view()),
        ensures
            r.0@ == unbonded(insurance_deposits@, step.deep_view()),
            r.1@ == unbond_payments(insurance_deposits@, step.deep_view(), *escrow_account),
    {
        let ghost d = insurance_deposits@;
        let ghost s = step.deep_view();
        let mut deposits: Vec<(SideEffectId, InsuranceDeposit)> = Vec::new();
        let mut payments: Vec<Transfer> = Vec::new();
        let mut i: usize = 0;
        assert(d.take(0) =~= Seq::empty());
        while i < insurance_deposits.len()
            invariant
                i <= insurance_deposits.len(),
                d == insurance_deposits@,
                s == step.deep_view(),
                crate::identity::step_encodable(s),
                deposits@ == unbonded(d.take(i as int), s),
                payments@ == unbond_payments(d.take(i as int), s, *escrow_account),
            decreases insurance_deposits.len() - i,
        {
            proof {
                assert(d.take(i + 1).drop_last() =~= d.take(i as int));
                assert(d.take(i + 1).last() == d[i as int]);
            }
            let (id, deposit) = insurance_deposits[i];
            let at = find_in_step(step, &id);
            let mut released = false;
            if at < step.len() {
                assert(s[at as int] == step@[at as int].deep_view());
                if let Some(confirmed) = &step[at].confirmed {
                    if let Some(bonder) = deposit.bonded_relayer {
                        match deposit.status {
                            BondStatus::Bonded => {
                                payments.push(
                                    Transfer {
                                        source: *escrow_account,
                                        dest: bonder,
                                        value: deposit.reserved_bond,
                                    },
                                );
                                payments.push(
                                    Transfer {
                                        source: *escrow_account,
                                        dest: confirmed.executioner,
                                        value: deposit.reward,
                                    },
                                );
                                released = true;
                            },
                            _ => {},
                        }
                    }
                }
            }
            if released {
                deposits.push(
                    (
                        id,
                        InsuranceDeposit {
                            insurance: deposit.insurance,
                            reward: deposit.reward,
                            reserved_bond: deposit.reserved_bond,
                            requester: deposit.requester,
                            bonded_relayer: deposit.bonded_relayer,
                            status: BondStatus::Unbonded,
                            requested_at: deposit.requested_at,
                            bonded_at: deposit.bonded_at,
                        },
                    ),
                );
            } else {
                deposits.push((id, deposit));
            }
            assert(released == releasable(d[i as int], s));
            assert(deposits@ =~= unbonded(d.take(i + 1), s));
            i += 1;
        }
        assert(d.take(insurance_deposits.len() as int) =~= d);
        (deposits, payments)
    }

    /// Gives the bonds of the confirmed side effects of a step back: each bond
    /// goes from the escrow to its executor, and the reward to the account that
    /// executed the side effect.
    ///
    /// It fails with `RefundTransferFailed` where the escrow refuses a bond and
    /// with `RewardTransferFailed` where it refuses a reward; the deposits then
    /// stay as they are.
    pub fn try_unbond<E: EscrowTrait>(
        escrow: &mut E,
        escrow_account: &AccountId,
        insurance_deposits: &mut Vec<(SideEffectId, InsuranceDeposit)>,
        step: &Vec<FullSideEffect>,
    ) -> (r: Result<(), Error>)
        requires
            crate::identity::step_encodable(step.deep_view()),
        ensures
            match r {
                Ok(_) => final(insurance_deposits)@ == unbonded(
                    old(insurance_deposits)@,
                    step.deep_view(),
                ),
                Err(e) => (e == Error::RefundTransferFailed || e == Error::RewardTransferFailed)
                    && final(insurance_deposits)@ == old(insurance_deposits)@ && unbond_payments(
                    old(insurance_deposits)@,
                    step.deep_view(),
                    *escrow_account,
                ).len() > 0,
            },
    {
        let (deposits, payments) = Optimistic::plan_unbond(
            insurance_deposits,
            step,
            escrow_account,
        );
        let mut i: usize = 0;
        while i < payments.len()
            invariant
                i <= payments.len(),
                insurance_deposits@ == old(insurance_deposits)@,
                payments@ == unbond_payments(
                    old(insurance_deposits)@,
                    step.deep_view(),
                    *escrow_account,
                ),
            decreases payments.len() - i,
        {
            let payment = payments[i];
            match escrow.transfer(&payment.source, &payment.dest, payment.value) {
                Ok(_) => {},
                Err(_) => {
                    if i % 2 == 0 {
                        return Err(Error::RefundTransferFailed);
                    } else {
                        return Err(Error::RewardTransferFailed);
                    }
                },
            }
            i += 1;
        }
        *insurance_deposits = deposits;
        Ok(())
    }
}

} // verus!
