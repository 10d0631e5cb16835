use pallet_circuit::engine::{
    action_id, decoded_or_refused, finalized_height, plan_square_up, protocol_verdict, settle,
    square_up, Settlement,
};
use pallet_circuit::error::{DispatchError, Error};
use pallet_circuit::exit::schedule_refusal;
use pallet_circuit::local::decode_side_effect;
use pallet_circuit::events::{emit, xbi_exit_event, Event};
use pallet_circuit::hooks::signal_status;
use pallet_circuit::identity::{generate_contract_id, generate_step_id, generate_xtx_id};
use pallet_circuit::interfaces::{AccountManager, EscrowTrait};
use pallet_circuit::optimistic::{find_deposit, Optimistic, Transfer};
use pallet_circuit::pallet::{authorize, get_xtx_status, Payload};
use pallet_circuit::primitives::{
    same_hash, same_target, AccountId, Balance, BenefitSource, CircuitRole, ConfirmationOutcome,
    ConfirmedSideEffect, FullSideEffect, GatewayType, LocalState, Origin, Outcome, SecurityLvl,
    SideEffect, SideEffectId, H256,
};
use pallet_circuit::registry::{Compose, RegistryContract};
use pallet_circuit::signal::{KillReason, SignalKind};
use pallet_circuit::status::{BondStatus, CircuitStatus, InsuranceDeposit};
use pallet_circuit::storage::Stores;
use pallet_circuit::table::Table;
use pallet_circuit::validator::{
    arrange_steps, check_insurance_reward, determine_dirty_vs_escrowed_lvl, fsx_total_rewards,
    is_local_gateway, order_by_security_lvl, select_lvl, step_fsx_by_security_lvl,
};
use pallet_circuit::weights::{
    saturating_times, RuntimeDbWeight, SubstrateWeight, WeightInfo,
};
use pallet_circuit::xbi::{XBICheckOutStatus, XBIInstr, XBINotificationKind, XBIStatus};
use pallet_circuit::xtx::{confirm_order, find_in_step, LocalXtxCtx, XExecSignal};
use parity_scale_codec::Encode;
use sp_runtime::traits::BlakeTwo256;

fn blake2(data: &[u8]) -> sp_core::H256 {
    <BlakeTwo256 as sp_runtime::traits::Hash>::hash(data)
}

const ALICE: AccountId = [1u8; 32];
const BOB: AccountId = [2u8; 32];
const CHARLIE: AccountId = [3u8; 32];
const ESCROW: AccountId = [9u8; 32];

fn sfx(tag: u8, prize: Balance) -> SideEffect {
    SideEffect {
        target: *b"ksma",
        prize,
        ordered_at: 2,
        encoded_action: b"tran".to_vec(),
        encoded_args: vec![vec![tag]],
        signature: vec![],
        enforce_executioner: None,
    }
}

fn confirmation(executioner: AccountId, cost: Option<Balance>) -> ConfirmedSideEffect {
    ConfirmedSideEffect {
        err: Some(ConfirmationOutcome::Success),
        output: Some(vec![1]),
        inclusion_data: vec![2],
        executioner,
        received_at: 3,
        cost,
    }
}

fn fsx(tag: u8, lvl: SecurityLvl, confirmed: bool) -> FullSideEffect {
    FullSideEffect {
        input: sfx(tag, tag as Balance),
        confirmed: if confirmed { Some(confirmation(BOB, None)) } else { None },
        security_lvl: lvl,
        submission_target_height: vec![tag],
    }
}

fn deposit(bonded: bool) -> InsuranceDeposit {
    let mut deposit = InsuranceDeposit::new(5, 3, 0, ALICE, 1);
    if bonded {
        deposit.bonded_relayer = Some(BOB);
        deposit.reserved_bond = 5;
        deposit.status = BondStatus::Bonded;
        deposit.bonded_at = Some(2);
    }
    deposit
}

fn ctx(
    status: CircuitStatus,
    steps_cnt: (u32, u32),
    steps: Vec<Vec<FullSideEffect>>,
    deposits: Vec<(SideEffectId, InsuranceDeposit)>,
) -> LocalXtxCtx {
    let mut xtx = XExecSignal::new(&ALICE, 101, None, Some(0));
    xtx.status = status;
    xtx.steps_cnt = steps_cnt;
    LocalXtxCtx {
        local_state: LocalState::new(),
        xtx_id: [7u8; 32],
        xtx,
        insurance_deposits: deposits,
        full_side_effects: steps,
    }
}

#[test]
fn side_effect_id_is_the_hash_of_its_encoding() {
    let side_effect = sfx(9, 1);
    let mut encoded = b"ksma".to_vec();
    encoded.extend_from_slice(&[1, 0, 0, 0, 0, 0, 0, 0, 0, 0, 0, 0, 0, 0, 0, 0]);
    encoded.extend_from_slice(&[2, 0, 0, 0]);
    encoded.push(4 << 2);
    encoded.extend_from_slice(b"tran");
    encoded.extend_from_slice(&[1 << 2, 1 << 2, 9]);
    encoded.push(0);
    encoded.push(0);
    assert_eq!(side_effect.generate_id(), blake2(&encoded).0);
    let mut enforced = sfx(9, 1);
    enforced.enforce_executioner = Some(BOB);
    let mut encoded_enforced = encoded.clone();
    encoded_enforced.pop();
    encoded_enforced.push(1);
    encoded_enforced.extend_from_slice(&BOB);
    assert_eq!(enforced.generate_id(), blake2(&encoded_enforced).0);
    assert_ne!(side_effect.generate_id(), enforced.generate_id());
    assert_ne!(sfx(9, 1).generate_id(), sfx(9, 2).generate_id());
    assert_eq!(sfx(9, 1).generate_id(), sfx(9, 1).generate_id());
}

#[test]
fn xtx_id_is_the_hash_of_requester_and_block() {
    let mut preimage = ALICE.to_vec();
    preimage.extend_from_slice(&[0x01, 0x02, 0x03, 0x04]);
    assert_eq!(generate_xtx_id(&ALICE, 0x01020304), blake2(&preimage).0);
    assert_ne!(generate_xtx_id(&ALICE, 1), generate_xtx_id(&ALICE, 2));
    assert_ne!(generate_xtx_id(&ALICE, 1), generate_xtx_id(&BOB, 1));
    let (id, xtx) = XExecSignal::setup_fresh(&ALICE, 0x01020304, None, Some(5));
    assert_eq!(id, blake2(&preimage).0);
    assert_eq!(xtx.generate_id(), id);
    assert_eq!(xtx.status, CircuitStatus::Requested);
    assert_eq!(xtx.steps_cnt, (0, 0));
    assert_eq!(xtx.total_reward, Some(5));
    assert_eq!(xtx.delay_steps_at, None);
}

#[test]
fn step_id_mixes_the_step_in() {
    let id = sfx(1, 1).generate_id();
    let mut preimage = id.to_vec();
    preimage.extend_from_slice(&[0, 0, 0, 1]);
    assert_eq!(generate_step_id(&id, 1), blake2(&preimage).0);
    assert_ne!(generate_step_id(&id, 0), generate_step_id(&id, 1));
}

#[test]
fn contract_id_is_the_hash_of_code_and_bytes() {
    let expected = blake2(&vec![1u8, 2, 3, 4, 5].encode()).0;
    assert_eq!(generate_contract_id(&vec![1, 2], &vec![3, 4, 5]), expected);
    assert_eq!(blake2(&[5 << 2, 1, 2, 3, 4, 5]).0, expected);
    let contract: RegistryContract<u8, u16, u32> =
        RegistryContract::new(vec![1, 2], vec![3, 4, 5], ALICE, Some(1), None, vec![7], None, 9);
    assert_eq!(contract.generate_id(), expected);
    assert_eq!(contract.author, ALICE);
    assert_eq!(contract.action_descriptions, vec![7]);
    let compose = Compose {
        name: b"name".to_vec(),
        code_txt: vec![1, 2],
        exec_type: vec![],
        dest: BOB,
        value: 0,
        bytes: vec![3, 4, 5],
        input_data: vec![],
    };
    let composed: RegistryContract<u8, u16, u32> =
        RegistryContract::from_compose(compose, vec![7], ALICE, Some(1), None, None, 9);
    assert_eq!(composed, contract);
}

#[test]
fn statuses_are_totally_ordered() {
    let order = [
        CircuitStatus::Requested,
        CircuitStatus::PendingInsurance,
        CircuitStatus::Bonded,
        CircuitStatus::Ready,
        CircuitStatus::PendingExecution,
        CircuitStatus::Finished,
        CircuitStatus::FinishedAllSteps,
        CircuitStatus::RevertTimedOut,
        CircuitStatus::RevertMisbehaviour,
        CircuitStatus::Reverted,
        CircuitStatus::RevertKill,
    ];
    for (i, a) in order.iter().enumerate() {
        assert_eq!(a.ordinal() as usize, i);
        assert_eq!(a.terminal(), i >= 6);
        assert_eq!(a.in_revert_family(), i >= 7);
        for (j, b) in order.iter().enumerate() {
            assert_eq!(a < b, i < j);
            assert_eq!(a >= b, i >= j);
        }
    }
}

#[test]
fn insurance_status_waits_for_every_bond() {
    let id = [1u8; 32];
    assert_eq!(CircuitStatus::determine_effects_insurance_status(&vec![]), CircuitStatus::Bonded);
    assert_eq!(
        CircuitStatus::determine_effects_insurance_status(&vec![(id, deposit(true))]),
        CircuitStatus::Bonded
    );
    assert_eq!(
        CircuitStatus::determine_effects_insurance_status(&vec![
            (id, deposit(true)),
            (id, deposit(false))
        ]),
        CircuitStatus::PendingInsurance
    );
}

#[test]
fn xtx_status_follows_confirmations_and_bonds() {
    let e = SecurityLvl::Escrowed;
    let id = [1u8; 32];
    let status = |steps: Vec<Vec<FullSideEffect>>, deposits| {
        CircuitStatus::determine_xtx_status(&steps, &deposits)
    };
    assert_eq!(status(vec![], vec![]), Ok(CircuitStatus::Requested));
    assert_eq!(status(vec![vec![]], vec![]), Ok(CircuitStatus::Requested));
    assert_eq!(status(vec![vec![fsx(1, e, false)]], vec![]), Ok(CircuitStatus::Ready));
    assert_eq!(
        status(vec![vec![fsx(1, e, false)]], vec![(id, deposit(false))]),
        Ok(CircuitStatus::PendingInsurance)
    );
    assert_eq!(
        status(vec![vec![fsx(1, e, false)]], vec![(id, deposit(true))]),
        Ok(CircuitStatus::Ready)
    );
    assert_eq!(
        status(vec![vec![fsx(1, e, true), fsx(2, e, false)]], vec![]),
        Ok(CircuitStatus::PendingExecution)
    );
    assert_eq!(
        status(vec![vec![fsx(1, e, true)], vec![fsx(2, e, false)]], vec![]),
        Ok(CircuitStatus::Finished)
    );
    assert_eq!(
        status(vec![vec![fsx(1, e, true)], vec![fsx(2, e, true)]], vec![]),
        Ok(CircuitStatus::FinishedAllSteps)
    );
    assert_eq!(
        status(vec![vec![fsx(1, e, false)], vec![fsx(2, e, true)]], vec![]),
        Err(Error::DeterminedForbiddenXtxStatus)
    );
}

#[test]
fn update_moves_the_cursor_within_the_steps() {
    let e = SecurityLvl::Escrowed;
    let mut requested = ctx(
        CircuitStatus::Requested,
        (0, 0),
        vec![vec![fsx(1, e, false)], vec![fsx(2, e, false)]],
        vec![],
    );
    assert_eq!(requested.update(), Ok((CircuitStatus::Requested, CircuitStatus::Ready)));
    assert_eq!(requested.xtx.steps_cnt, (0, 2));
    assert_eq!(requested.xtx.status, CircuitStatus::Ready);

    let mut first_done = ctx(
        CircuitStatus::Ready,
        (0, 2),
        vec![vec![fsx(1, e, true)], vec![fsx(2, e, false)]],
        vec![],
    );
    assert_eq!(first_done.update(), Ok((CircuitStatus::Ready, CircuitStatus::Finished)));
    assert_eq!(first_done.xtx.steps_cnt, (1, 2));

    let mut all_done = ctx(
        CircuitStatus::Finished,
        (1, 2),
        vec![vec![fsx(1, e, true)], vec![fsx(2, e, true)]],
        vec![],
    );
    assert_eq!(
        all_done.update(),
        Ok((CircuitStatus::Finished, CircuitStatus::FinishedAllSteps))
    );
    assert_eq!(all_done.xtx.steps_cnt, (2, 2));
    assert_eq!(all_done.xtx.status, CircuitStatus::FinishedAllSteps);

    let mut waiting = ctx(
        CircuitStatus::PendingExecution,
        (0, 1),
        vec![vec![fsx(1, e, true), fsx(2, e, false)]],
        vec![],
    );
    assert_eq!(
        waiting.update(),
        Ok((CircuitStatus::PendingExecution, CircuitStatus::PendingExecution))
    );
    assert_eq!(waiting.xtx.steps_cnt, (0, 1));

    let mut bonding = ctx(
        CircuitStatus::PendingInsurance,
        (0, 1),
        vec![vec![fsx(1, SecurityLvl::Optimistic, false)]],
        vec![([1u8; 32], deposit(true))],
    );
    assert_eq!(bonding.update(), Ok((CircuitStatus::PendingInsurance, CircuitStatus::Ready)));

    let mut forbidden = ctx(
        CircuitStatus::Ready,
        (0, 2),
        vec![vec![fsx(1, e, false)], vec![fsx(2, e, true)]],
        vec![],
    );
    assert_eq!(forbidden.update(), Err(Error::DeterminedForbiddenXtxStatus));
}

#[test]
fn confirmation_is_attached_once_to_the_first_match() {
    let e = SecurityLvl::Escrowed;
    let mut step = vec![fsx(1, e, false), fsx(2, e, false), fsx(2, e, false)];
    let id = sfx(2, 2).generate_id();
    assert_eq!(find_in_step(&step, &id), 1);
    assert_eq!(find_in_step(&step, &[0u8; 32]), 3);
    let confirmed = confirm_order(&id, &confirmation(CHARLIE, Some(4)), &mut step).unwrap();
    assert_eq!(confirmed.confirmed, Some(confirmation(CHARLIE, Some(4))));
    assert_eq!(confirmed.input, sfx(2, 2));
    assert_eq!(step[0].confirmed, None);
    assert_eq!(step[1].confirmed, Some(confirmation(CHARLIE, Some(4))));
    assert_eq!(step[2].confirmed, None);
    let before = step.clone();
    assert_eq!(
        confirm_order(&id, &confirmation(BOB, None), &mut step),
        Err("Side Effect already confirmed")
    );
    assert_eq!(step, before);
    assert_eq!(
        confirm_order(&[0u8; 32], &confirmation(BOB, None), &mut step),
        Err("Unable to find matching Side Effect in given Xtx to confirm")
    );
    assert_eq!(
        confirm_order(&id, &confirmation(BOB, None), &mut vec![]),
        Err("Xtx has an empty single step.")
    );
}

#[test]
fn security_level_follows_insurance_and_gateway() {
    assert_eq!(
        determine_dirty_vs_escrowed_lvl(GatewayType::ProgrammableInternal(0)),
        SecurityLvl::Escrowed
    );
    assert_eq!(determine_dirty_vs_escrowed_lvl(GatewayType::OnCircuit(0)), SecurityLvl::Escrowed);
    assert_eq!(
        determine_dirty_vs_escrowed_lvl(GatewayType::ProgrammableExternal(0)),
        SecurityLvl::Dirty
    );
    assert_eq!(determine_dirty_vs_escrowed_lvl(GatewayType::TxOnly(0)), SecurityLvl::Dirty);
    assert!(is_local_gateway(true, GatewayType::TxOnly(0)));
    assert!(is_local_gateway(false, GatewayType::ProgrammableInternal(0)));
    assert!(!is_local_gateway(false, GatewayType::OnCircuit(0)));
    assert_eq!(check_insurance_reward(3, None), Ok(()));
    assert_eq!(check_insurance_reward(3, Some([5, 3])), Ok(()));
    assert_eq!(
        check_insurance_reward(3, Some([3, 5])),
        Err("Side_effect prize must be equal to reward of Optional Insurance")
    );
}

#[test]
fn steps_hold_clean_side_effects_first_and_each_dirty_one_alone() {
    let (e, o, d) = (SecurityLvl::Escrowed, SecurityLvl::Optimistic, SecurityLvl::Dirty);
    let bundle =
        vec![fsx(1, d, false), fsx(2, o, false), fsx(3, e, false), fsx(4, d, false), fsx(5, e, false)];
    assert_eq!(
        order_by_security_lvl(&bundle),
        vec![fsx(3, e, false), fsx(5, e, false), fsx(2, o, false), fsx(1, d, false), fsx(4, d, false)]
    );
    assert_eq!(
        arrange_steps(&bundle),
        vec![
            vec![fsx(3, e, false), fsx(5, e, false), fsx(2, o, false)],
            vec![fsx(1, d, false)],
            vec![fsx(4, d, false)],
        ]
    );
    assert_eq!(select_lvl(&bundle, d), vec![fsx(1, d, false), fsx(4, d, false)]);
    assert_eq!(arrange_steps(&vec![]), vec![Vec::<FullSideEffect>::new()]);
    assert_eq!(
        arrange_steps(&vec![fsx(1, d, false), fsx(2, d, false)]),
        vec![vec![fsx(1, d, false)], vec![fsx(2, d, false)]]
    );
    assert_eq!(arrange_steps(&vec![fsx(1, o, false)]), vec![vec![fsx(1, o, false)]]);
    let steps = arrange_steps(&bundle);
    assert_eq!(step_fsx_by_security_lvl(&steps, 0, e), vec![fsx(3, e, false), fsx(5, e, false)]);
    assert_eq!(step_fsx_by_security_lvl(&steps, 1, e), vec![]);
    assert_eq!(step_fsx_by_security_lvl(&steps, 9, d), vec![]);
    assert_eq!(fsx_total_rewards(&bundle), 1 + 2 + 3 + 4 + 5);
    let mut rich = fsx(1, d, false);
    rich.input.prize = Balance::MAX;
    assert_eq!(fsx_total_rewards(&vec![rich, fsx(2, d, false)]), Balance::MAX);
    assert_eq!(fsx_total_rewards(&vec![]), 0);
}

struct Vault {
    transfers: Vec<Transfer>,
    refuses_from: usize,
}

impl EscrowTrait for Vault {
    fn transfer(
        &mut self,
        source: &AccountId,
        dest: &AccountId,
        value: Balance,
    ) -> Result<(), DispatchError> {
        if self.transfers.len() >= self.refuses_from {
            return Err(DispatchError::Other("refused"));
        }
        self.transfers.push(Transfer { source: *source, dest: *dest, value });
        Ok(())
    }
}

struct Ledger {
    instructions: Vec<Settlement>,
    refuses: bool,
}

impl AccountManager for Ledger {
    fn deposit(
        &mut self,
        charge_id: H256,
        payer: &AccountId,
        charge_fee: Balance,
        offered_reward: Balance,
        source: BenefitSource,
        role: CircuitRole,
        _recipient: Option<AccountId>,
    ) -> Result<(), DispatchError> {
        if self.refuses {
            return Err(DispatchError::BadOrigin);
        }
        self.instructions.push(Settlement::Deposit {
            charge_id,
            payer: *payer,
            charge_fee,
            offered_reward,
            source,
            role,
        });
        Ok(())
    }

    fn finalize(
        &mut self,
        charge_id: H256,
        outcome: Outcome,
        maybe_recipient: Option<AccountId>,
        maybe_actual_fees: Option<Balance>,
    ) -> Result<(), DispatchError> {
        if self.refuses {
            return Err(DispatchError::BadOrigin);
        }
        self.instructions.push(Settlement::Finalize {
            charge_id,
            outcome,
            recipient: maybe_recipient,
            actual_fees: maybe_actual_fees,
        });
        Ok(())
    }

    fn try_finalize(
        &mut self,
        charge_id: H256,
        outcome: Outcome,
        _maybe_recipient: Option<AccountId>,
        _maybe_actual_fees: Option<Balance>,
    ) -> bool {
        self.instructions.push(Settlement::TryFinalize { charge_id, outcome });
        !self.refuses
    }
}

#[test]
fn bond_records_the_executor_and_the_block() {
    let id = sfx(1, 3).generate_id();
    let mut deposits = vec![([0u8; 32], deposit(false)), (id, deposit(false))];
    assert_eq!(find_deposit(&deposits, &id), 1);
    assert_eq!(find_deposit(&deposits, &[4u8; 32]), 2);
    let mut vault = Vault { transfers: vec![], refuses_from: 1 };
    let bonded =
        Optimistic::bond_4_sfx(&mut vault, &ESCROW, 7, &BOB, &mut deposits, id).unwrap();
    assert_eq!(
        bonded,
        InsuranceDeposit {
            insurance: 5,
            reward: 3,
            reserved_bond: 5,
            requester: ALICE,
            bonded_relayer: Some(BOB),
            status: BondStatus::Bonded,
            requested_at: 1,
            bonded_at: Some(7),
        }
    );
    assert_eq!(deposits, vec![([0u8; 32], deposit(false)), (id, bonded)]);
    assert_eq!(vault.transfers, vec![Transfer { source: BOB, dest: ESCROW, value: 5 }]);
    let before = deposits.clone();
    assert_eq!(
        Optimistic::bond_4_sfx(&mut vault, &ESCROW, 8, &CHARLIE, &mut deposits, id),
        Err(Error::InsuranceBondAlreadyDeposited)
    );
    assert_eq!(
        Optimistic::bond_4_sfx(&mut vault, &ESCROW, 8, &CHARLIE, &mut deposits, [4u8; 32]),
        Err(Error::InsuranceBondNotRequired)
    );
    assert_eq!(
        Optimistic::bond_4_sfx(&mut vault, &ESCROW, 8, &CHARLIE, &mut deposits, [0u8; 32]),
        Err(Error::InsuranceBondTooLow)
    );
    assert_eq!(deposits, before);
}

#[test]
fn bond_is_planned_from_the_executor_to_the_escrow() {
    let id = sfx(1, 3).generate_id();
    let deposits = vec![([0u8; 32], deposit(true)), (id, deposit(false))];
    assert_eq!(
        Optimistic::plan_bond(&deposits, id, &BOB, &ESCROW),
        Ok(Transfer { source: BOB, dest: ESCROW, value: 5 })
    );
    assert_eq!(
        Optimistic::plan_bond(&deposits, [0u8; 32], &BOB, &ESCROW),
        Err(Error::InsuranceBondAlreadyDeposited)
    );
    assert_eq!(
        Optimistic::plan_bond(&deposits, [4u8; 32], &BOB, &ESCROW),
        Err(Error::InsuranceBondNotRequired)
    );
}

#[test]
fn slash_takes_the_held_bonds_once() {
    let mut deposits =
        vec![([1u8; 32], deposit(true)), ([2u8; 32], deposit(false)), ([3u8; 32], deposit(true))];
    let (planned, refunds) = Optimistic::plan_slash(&deposits, &ESCROW);
    let refund = Transfer { source: ESCROW, dest: ALICE, value: 3 };
    assert_eq!(refunds, vec![refund, refund]);
    assert_eq!(planned[0].1.status, BondStatus::Slashed);
    assert_eq!(planned[1].1, deposit(false));
    assert_eq!(planned[2].1.status, BondStatus::Slashed);
    assert_eq!(planned[0].1.reserved_bond, 5);
    let mut vault = Vault { transfers: vec![], refuses_from: 1 };
    Optimistic::try_slash(&mut vault, &ESCROW, &mut deposits);
    assert_eq!(deposits, planned);
    assert_eq!(vault.transfers, vec![refund]);
    Optimistic::try_slash(&mut vault, &ESCROW, &mut deposits);
    assert_eq!(deposits, planned);
    assert_eq!(Optimistic::plan_slash(&deposits, &ESCROW), (planned, vec![]));
}

#[test]
fn unbond_pays_bond_and_reward_for_confirmed_side_effects() {
    let o = SecurityLvl::Optimistic;
    let mut confirmed = fsx(1, o, false);
    confirmed.confirmed = Some(confirmation(CHARLIE, None));
    let step = vec![confirmed, fsx(2, o, false)];
    let ids = (sfx(1, 1).generate_id(), sfx(2, 2).generate_id());
    let mut deposits = vec![(ids.0, deposit(true)), (ids.1, deposit(true)), ([4; 32], deposit(true))];
    let (planned, payments) = Optimistic::plan_unbond(&deposits, &step, &ESCROW);
    assert_eq!(
        payments,
        vec![
            Transfer { source: ESCROW, dest: BOB, value: 5 },
            Transfer { source: ESCROW, dest: CHARLIE, value: 3 },
        ]
    );
    assert_eq!(planned[0].1.status, BondStatus::Unbonded);
    assert_eq!(planned[1].1, deposit(true));
    assert_eq!(planned[2].1, deposit(true));

    let before = deposits.clone();
    let mut broke = Vault { transfers: vec![], refuses_from: 0 };
    assert_eq!(
        Optimistic::try_unbond(&mut broke, &ESCROW, &mut deposits, &step),
        Err(Error::RefundTransferFailed)
    );
    let mut short = Vault { transfers: vec![], refuses_from: 1 };
    assert_eq!(
        Optimistic::try_unbond(&mut short, &ESCROW, &mut deposits, &step),
        Err(Error::RewardTransferFailed)
    );
    assert_eq!(deposits, before);
    let mut vault = Vault { transfers: vec![], refuses_from: 9 };
    assert_eq!(Optimistic::try_unbond(&mut vault, &ESCROW, &mut deposits, &step), Ok(()));
    assert_eq!(vault.transfers, payments);
    assert_eq!(deposits, planned);
    assert_eq!(Optimistic::try_unbond(&mut vault, &ESCROW, &mut deposits, &step), Ok(()));
    assert_eq!(vault.transfers, payments);
}

#[test]
fn settlement_is_planned_by_status() {
    let e = SecurityLvl::Escrowed;
    let step = vec![fsx(0, e, false), fsx(4, e, false)];
    let id = sfx(4, 4).generate_id();
    let requested = ctx(CircuitStatus::Requested, (0, 1), vec![step.clone()], vec![]);
    assert_eq!(
        plan_square_up(&requested, Some(ALICE), None),
        Ok(vec![Settlement::Deposit {
            charge_id: id,
            payer: ALICE,
            charge_fee: 0,
            offered_reward: 4,
            source: BenefitSource::TrafficRewards,
            role: CircuitRole::Requester,
        }])
    );
    assert_eq!(plan_square_up(&requested, None, None), Err(Error::ChargingTransferFailed));
    let ready = ctx(CircuitStatus::Ready, (0, 1), vec![step.clone()], vec![]);
    assert_eq!(
        plan_square_up(&ready, None, Some(([8u8; 32], BOB, 30))),
        Ok(vec![Settlement::Deposit {
            charge_id: [8u8; 32],
            payer: BOB,
            charge_fee: 30,
            offered_reward: 0,
            source: BenefitSource::TrafficFees,
            role: CircuitRole::Executor,
        }])
    );
    assert_eq!(plan_square_up(&ready, Some(ALICE), None), Err(Error::ChargingTransferFailed));
    for revert in [
        CircuitStatus::RevertTimedOut,
        CircuitStatus::Reverted,
        CircuitStatus::RevertMisbehaviour,
        CircuitStatus::RevertKill,
    ] {
        let reverted = ctx(revert, (0, 1), vec![step.clone()], vec![]);
        assert_eq!(
            plan_square_up(&reverted, None, None),
            Ok(vec![
                Settlement::TryFinalize {
                    charge_id: sfx(0, 0).generate_id(),
                    outcome: Outcome::Revert
                },
                Settlement::TryFinalize { charge_id: id, outcome: Outcome::Revert },
            ])
        );
    }
    let finished = ctx(CircuitStatus::Finished, (0, 1), vec![step], vec![]);
    assert_eq!(
        plan_square_up(&finished, None, None),
        Err(Error::CriticalStateSquareUpCalledToFinishWithoutFsxConfirmed)
    );
    let mut done = fsx(4, e, false);
    done.confirmed = Some(confirmation(CHARLIE, Some(2)));
    let finished = ctx(CircuitStatus::FinishedAllSteps, (0, 1), vec![vec![done]], vec![]);
    assert_eq!(
        plan_square_up(&finished, None, None),
        Ok(vec![Settlement::Finalize {
            charge_id: id,
            outcome: Outcome::Commit,
            recipient: Some(CHARLIE),
            actual_fees: Some(2),
        }])
    );
    let past = ctx(CircuitStatus::RevertKill, (3, 1), vec![vec![fsx(1, e, false)]], vec![]);
    assert_eq!(plan_square_up(&past, None, None), Ok(vec![]));
    let bonded = ctx(CircuitStatus::Bonded, (0, 1), vec![vec![fsx(1, e, false)]], vec![]);
    assert_eq!(plan_square_up(&bonded, None, None), Ok(vec![]));
}

#[test]
fn settlement_stops_at_the_first_refusal() {
    let charge = Settlement::Deposit {
        charge_id: [1u8; 32],
        payer: ALICE,
        charge_fee: 0,
        offered_reward: 1,
        source: BenefitSource::TrafficRewards,
        role: CircuitRole::Requester,
    };
    let commit = Settlement::Finalize {
        charge_id: [1u8; 32],
        outcome: Outcome::Commit,
        recipient: None,
        actual_fees: None,
    };
    let revert = Settlement::TryFinalize { charge_id: [1u8; 32], outcome: Outcome::Revert };
    let mut ledger = Ledger { instructions: vec![], refuses: false };
    assert_eq!(settle(&mut ledger, &vec![charge, commit, revert]), Ok(()));
    assert_eq!(ledger.instructions, vec![charge, commit, revert]);
    let mut closed = Ledger { instructions: vec![], refuses: true };
    assert_eq!(settle(&mut closed, &vec![revert, charge]), Err(Error::ChargingTransferFailed));
    assert_eq!(settle(&mut closed, &vec![revert, commit]), Err(Error::FinalizeSquareUpFailed));
    assert_eq!(settle(&mut closed, &vec![revert, revert]), Ok(()));
}

#[test]
fn finished_step_is_committed_and_unbonded() {
    let o = SecurityLvl::Optimistic;
    let mut done = fsx(1, o, false);
    done.confirmed = Some(confirmation(CHARLIE, Some(2)));
    let id = sfx(1, 1).generate_id();
    let mut finished =
        ctx(CircuitStatus::Finished, (0, 1), vec![vec![done]], vec![(id, deposit(true))]);
    let mut ledger = Ledger { instructions: vec![], refuses: false };
    let mut vault = Vault { transfers: vec![], refuses_from: 9 };
    assert_eq!(square_up(&mut ledger, &mut vault, &ESCROW, &mut finished, None, None), Ok(()));
    assert_eq!(
        ledger.instructions,
        vec![Settlement::Finalize {
            charge_id: id,
            outcome: Outcome::Commit,
            recipient: Some(CHARLIE),
            actual_fees: Some(2),
        }]
    );
    assert_eq!(
        vault.transfers,
        vec![
            Transfer { source: ESCROW, dest: BOB, value: 5 },
            Transfer { source: ESCROW, dest: CHARLIE, value: 3 },
        ]
    );
    assert_eq!(finished.insurance_deposits[0].1.status, BondStatus::Unbonded);
    let mut closed = Ledger { instructions: vec![], refuses: true };
    assert_eq!(
        square_up(&mut closed, &mut vault, &ESCROW, &mut finished, None, None),
        Err(Error::FinalizeSquareUpFailed)
    );
}

#[test]
fn action_names_the_operation_by_four_bytes() {
    let mut side_effect = sfx(1, 1);
    side_effect.encoded_action = b"transfer".to_vec();
    assert_eq!(action_id(&side_effect), Some(*b"tran"));
    side_effect.encoded_action = b"tra".to_vec();
    assert_eq!(action_id(&side_effect), None);
}

#[test]
fn stores_are_written_by_the_old_status() {
    let e = SecurityLvl::Escrowed;
    let id = [7u8; 32];
    let sfx_id = sfx(1, 1).generate_id();
    let mut stores = Stores::new();
    let mut bundle = ctx(
        CircuitStatus::PendingInsurance,
        (0, 1),
        vec![vec![fsx(1, e, false)]],
        vec![(sfx_id, deposit(false))],
    );
    let change = (CircuitStatus::Requested, CircuitStatus::PendingInsurance);
    let (xtx, steps) = stores.apply(&mut bundle, None, &vec![sfx_id], change);
    assert_eq!(xtx, Some(bundle.xtx.clone()));
    assert_eq!(steps, Some(bundle.full_side_effects.clone()));
    assert_eq!(stores.x_exec_signals.get(&id), Some(&bundle.xtx));
    assert_eq!(stores.full_side_effects.get(&id), Some(&bundle.full_side_effects));
    assert_eq!(stores.local_xtx_states.get(&id), Some(&LocalState::new()));
    assert_eq!(stores.insurance_deposits.get(&(id, sfx_id)), Some(&deposit(false)));
    assert_eq!(stores.xtx_insurance_links.get(&id), Some(&vec![sfx_id]));
    assert_eq!(stores.local_side_effect_to_xtx_id_links.get(&sfx_id), Some(&id));
    assert_eq!(stores.active_x_exec_signals_timing_links.get(&id), Some(&101));

    // a deposit is overwritten; the transaction is written only when its status moved
    let same = (CircuitStatus::PendingInsurance, CircuitStatus::PendingInsurance);
    let before = stores.x_exec_signals.clone();
    assert_eq!(stores.apply(&mut bundle, Some((sfx_id, deposit(true))), &vec![], same), (None, None));
    assert_eq!(stores.insurance_deposits.get(&(id, sfx_id)), Some(&deposit(true)));
    assert_eq!(stores.x_exec_signals, before);
    let moved = (CircuitStatus::PendingInsurance, CircuitStatus::Ready);
    let (xtx, steps) = stores.apply(&mut bundle, None, &vec![], moved);
    assert_eq!(bundle.xtx.status, CircuitStatus::Ready);
    assert_eq!(xtx, Some(bundle.xtx.clone()));
    assert_eq!(steps, None);
    assert_eq!(stores.x_exec_signals.get(&id).unwrap().status, CircuitStatus::Ready);

    // a transaction that executes: the snapshot comes once it is past ready
    let (xtx, steps) =
        stores.apply(&mut bundle, None, &vec![], (CircuitStatus::Ready, CircuitStatus::Ready));
    assert_eq!(xtx, None);
    assert_eq!(steps, Some(bundle.full_side_effects.clone()));
    bundle.xtx.status = CircuitStatus::PendingExecution;
    let (xtx, _) = stores.apply(
        &mut bundle,
        None,
        &vec![],
        (CircuitStatus::Ready, CircuitStatus::PendingExecution),
    );
    assert_eq!(xtx, Some(bundle.xtx.clone()));
    assert!(stores.active_x_exec_signals_timing_links.contains_key(&id));

    // a transaction that is written as over leaves the timing links
    let before = stores.clone();
    for over in [
        CircuitStatus::RevertKill,
        CircuitStatus::Reverted,
        CircuitStatus::RevertMisbehaviour,
        CircuitStatus::RevertTimedOut,
        CircuitStatus::FinishedAllSteps,
    ] {
        let mut stores = before.clone();
        bundle.xtx.status = over;
        let (xtx, steps) = stores.apply(&mut bundle, None, &vec![], (over, over));
        assert_eq!(xtx, Some(bundle.xtx.clone()));
        assert_eq!(steps, Some(bundle.full_side_effects.clone()));
        assert_eq!(stores.x_exec_signals.get(&id).unwrap().status, over);
        assert!(!stores.active_x_exec_signals_timing_links.contains_key(&id));
        assert_eq!(stores.full_side_effects, before.full_side_effects);
        assert_eq!(stores.insurance_deposits, before.insurance_deposits);
    }
    // also where the confirmation of the last step ends it
    let mut stores = before.clone();
    bundle.xtx.status = CircuitStatus::FinishedAllSteps;
    bundle.xtx.steps_cnt = (1, 1);
    let change = (CircuitStatus::PendingExecution, CircuitStatus::FinishedAllSteps);
    let (xtx, steps) = stores.apply(&mut bundle, None, &vec![], change);
    assert_eq!(xtx, Some(bundle.xtx.clone()));
    assert_eq!(steps, Some(bundle.full_side_effects.clone()));
    assert_eq!(stores.x_exec_signals.get(&id), Some(&bundle.xtx));
    assert!(!stores.active_x_exec_signals_timing_links.contains_key(&id));
}

#[test]
fn events_follow_the_status() {
    let id = [7u8; 32];
    let e = SecurityLvl::Escrowed;
    let steps = vec![vec![fsx(1, e, true)]];
    let xtx = |status| {
        let mut xtx = XExecSignal::new(&ALICE, 101, None, None);
        xtx.status = status;
        Some(xtx)
    };
    let bundle = vec![sfx(1, 1), sfx(2, 2)];
    assert_eq!(
        emit(id, xtx(CircuitStatus::PendingInsurance), &ALICE, &bundle, Some(steps.clone())),
        vec![
            Event::NewSideEffectsAvailable(
                ALICE,
                id,
                bundle.clone(),
                vec![sfx(1, 1).generate_id(), sfx(2, 2).generate_id()]
            ),
            Event::XTransactionReceivedForExec(id),
        ]
    );
    assert_eq!(emit(id, None, &ALICE, &vec![], Some(steps.clone())), vec![]);
    assert_eq!(
        emit(id, xtx(CircuitStatus::Ready), &ALICE, &vec![], Some(steps.clone())),
        vec![Event::XTransactionReadyForExec(id)]
    );
    assert_eq!(
        emit(id, xtx(CircuitStatus::PendingExecution), &ALICE, &vec![], Some(steps.clone())),
        vec![Event::SideEffectsConfirmed(id, steps.clone())]
    );
    assert_eq!(
        emit(id, xtx(CircuitStatus::Finished), &ALICE, &vec![], None),
        vec![Event::XTransactionStepFinishedExec(id)]
    );
    assert_eq!(
        emit(id, xtx(CircuitStatus::FinishedAllSteps), &ALICE, &vec![], Some(steps.clone())),
        vec![
            Event::XTransactionXtxFinishedExecAllSteps(id),
            Event::SideEffectsConfirmed(id, steps.clone()),
        ]
    );
    assert_eq!(
        emit(id, xtx(CircuitStatus::RevertTimedOut), &ALICE, &vec![], None),
        vec![Event::XTransactionXtxRevertedAfterTimeOut(id)]
    );
    assert_eq!(emit(id, xtx(CircuitStatus::Requested), &ALICE, &vec![], None), vec![]);
    assert_eq!(
        emit(id, xtx(CircuitStatus::RevertKill), &ALICE, &vec![], Some(steps.clone())),
        vec![Event::SideEffectsConfirmed(id, steps)]
    );
}

#[test]
fn exit_events_follow_the_instruction() {
    let event = |instr: XBIInstr| xbi_exit_event(&ESCROW, &BOB, &instr);
    assert_eq!(
        event(XBIInstr::CallWasm {
            dest: CHARLIE,
            value: 1,
            gas_limit: 2,
            storage_deposit_limit: Some(3),
            data: vec![4],
        }),
        Some(Event::CallWasm(ESCROW, CHARLIE, 1, 2, Some(3), vec![4]))
    );
    assert_eq!(
        event(XBIInstr::CallEvm {
            source: [1u8; 20],
            target: [2u8; 20],
            value: [3u8; 32],
            input: vec![4],
            gas_limit: 5,
            max_fee_per_gas: [6u8; 32],
            max_priority_fee_per_gas: None,
            nonce: Some([7u8; 32]),
            access_list: vec![([8u8; 20], vec![[9u8; 32]])],
        }),
        Some(Event::CallEvm(
            ESCROW,
            [1u8; 20],
            [2u8; 20],
            [3u8; 32],
            vec![4],
            5,
            [6u8; 32],
            None,
            Some([7u8; 32]),
            vec![([8u8; 20], vec![[9u8; 32]])],
        ))
    );
    assert_eq!(
        event(XBIInstr::CallCustom {
            caller: ALICE,
            dest: CHARLIE,
            value: 1,
            input: vec![2],
            limit: 3,
            additional_params: vec![4],
        }),
        Some(Event::CallCustom(ESCROW, ALICE, CHARLIE, 1, vec![2], 3, vec![4]))
    );
    assert_eq!(
        event(XBIInstr::TransferORML { currency_id: 1, dest: CHARLIE, value: 2 }),
        Some(Event::TransferORML(ESCROW, 1, BOB, CHARLIE, 2))
    );
    assert_eq!(
        event(XBIInstr::TransferAssets { currency_id: 1, dest: CHARLIE, value: 2 }),
        Some(Event::TransferAssets(ESCROW, 1, BOB, CHARLIE, 2))
    );
    assert_eq!(
        event(XBIInstr::Result {
            outcome: XBICheckOutStatus::ErrorDeliveryTimeout,
            output: vec![1],
            witness: vec![2],
        }),
        Some(Event::Result(ESCROW, BOB, XBICheckOutStatus::ErrorDeliveryTimeout, vec![1], vec![2]))
    );
    assert_eq!(
        event(XBIInstr::Notification {
            kind: XBINotificationKind::Delivered,
            instruction_id: vec![1],
            extra: vec![2],
        }),
        Some(Event::Notification(ESCROW, BOB, XBINotificationKind::Delivered, vec![1], vec![2]))
    );
    assert_eq!(event(XBIInstr::Unknown { identifier: 1, params: vec![] }), None);
}

#[test]
fn weights_add_the_cost_of_reads_and_writes() {
    let db_weight = RuntimeDbWeight { read: 25, write: 100 };
    assert_eq!(db_weight.reads(4), 100);
    assert_eq!(db_weight.writes(7), 700);
    assert_eq!(db_weight.reads_writes(2, 1), 150);
    let weights = SubstrateWeight { db_weight };
    assert_eq!(weights.decompose_io_schedule(), 6_984_000);
    assert_eq!(weights.register_gateway_default_polka(), 68_373_000 + 800);
    assert_eq!(weights.register_gateway_polka_u64(), 68_058_000 + 800);
    assert_eq!(weights.register_gateway_default_eth(), 68_073_000 + 800);
    assert_eq!(weights.register_gateway_eth_u64(), 67_939_000 + 800);
    assert_eq!(weights.dry_run_whole_xtx_one_component(), 14_094_000 + 25);
    assert_eq!(weights.dry_run_whole_xtx_three_components(), 14_757_000 + 25);
    let heavy = RuntimeDbWeight { read: u64::MAX / 2, write: u64::MAX };
    assert_eq!(heavy.reads(2), u64::MAX - 1);
    assert_eq!(heavy.reads(3), u64::MAX);
    assert_eq!(heavy.writes(0), 0);
    assert_eq!(heavy.reads_writes(1, 1), u64::MAX);
    assert_eq!(saturating_times(1 << 32, 1 << 32), u64::MAX);
    assert_eq!(saturating_times(1 << 32, (1 << 32) - 1), u64::MAX - (1 << 32) + 1);
    assert_eq!(SubstrateWeight { db_weight: heavy }.register_gateway_eth_u64(), u64::MAX);
}

#[test]
fn table_keeps_one_value_per_key_in_arrival_order() {
    let mut table: Table<H256, u32> = Table::new();
    assert_eq!(table.len(), 0);
    table.insert([1u8; 32], 10);
    table.insert([2u8; 32], 20);
    table.insert([3u8; 32], 30);
    table.insert([2u8; 32], 21);
    assert_eq!(table.len(), 3);
    assert_eq!(*table.entry(1), ([2u8; 32], 21));
    assert_eq!(table.get(&[2u8; 32]), Some(&21));
    assert_eq!(table.find(&[3u8; 32]), Some(2));
    assert_eq!(table.find(&[4u8; 32]), None);
    assert!(table.contains_key(&[1u8; 32]));
    table.remove(&[1u8; 32]);
    table.remove(&[9u8; 32]);
    assert_eq!(table.len(), 2);
    assert_eq!(*table.entry(0), ([2u8; 32], 21));
    assert_eq!(*table.entry(1), ([3u8; 32], 30));
    assert_eq!(table.get(&[1u8; 32]), None);
    let mut pairs: Table<(H256, H256), u8> = Table::new();
    pairs.insert(([1u8; 32], [2u8; 32]), 1);
    assert_eq!(pairs.get(&([1u8; 32], [2u8; 32])), Some(&1));
    assert_eq!(pairs.get(&([2u8; 32], [1u8; 32])), None);
}

#[test]
fn roles_that_may_call_are_authorized_by_a_signature() {
    for role in [
        CircuitRole::Requester,
        CircuitRole::ContractAuthor,
        CircuitRole::Relayer,
        CircuitRole::Executor,
    ] {
        assert_eq!(authorize(Origin::Signed(ALICE), role), Ok(ALICE));
        assert_eq!(authorize(Origin::Root, role), Err(DispatchError::BadOrigin));
        assert_eq!(authorize(Origin::Unsigned, role), Err(DispatchError::BadOrigin));
    }
    for role in [
        CircuitRole::Ambassador,
        CircuitRole::Attester,
        CircuitRole::Staker,
        CircuitRole::Collator,
        CircuitRole::Local,
    ] {
        assert_eq!(authorize(Origin::Signed(ALICE), role), Err(DispatchError::BadOrigin));
    }
}

#[test]
fn signals_ask_for_a_status() {
    assert_eq!(signal_status(SignalKind::Complete), CircuitStatus::Finished);
    for reason in [KillReason::Unhandled, KillReason::Codec, KillReason::Timeout] {
        assert_eq!(signal_status(SignalKind::Kill(reason)), CircuitStatus::RevertKill);
    }
}

#[test]
fn plain_values_compare_and_copy() {
    assert!(same_hash(&ALICE, &[1u8; 32]));
    let mut other = ALICE;
    other[31] = 0;
    assert!(!same_hash(&ALICE, &other));
    assert!(same_target(b"ksma", b"ksma"));
    assert!(!same_target(b"ksma", b"ksmb"));
    let full = fsx(1, SecurityLvl::Dirty, true);
    assert_eq!(full.clone(), full);
    let payload = Payload::new(5u32, ALICE);
    assert_eq!(payload.public(), ALICE);
    assert_eq!(payload.block_number(), 5);
    get_xtx_status();
}

#[test]
fn only_the_first_internal_gateway_is_local() {
    assert!(is_local_gateway(false, GatewayType::ProgrammableInternal(0)));
    assert!(!is_local_gateway(false, GatewayType::ProgrammableInternal(1)));
    assert!(!is_local_gateway(false, GatewayType::ProgrammableExternal(0)));
    assert!(!is_local_gateway(false, GatewayType::TxOnly(0)));
    assert!(is_local_gateway(true, GatewayType::ProgrammableInternal(1)));
    assert!(is_local_gateway(true, GatewayType::ProgrammableExternal(0)));
}

#[test]
fn bus_takes_a_side_effect_that_it_has_not_seen() {
    assert_eq!(schedule_refusal(XBIStatus::UnknownId), None);
    assert_eq!(
        schedule_refusal(XBIStatus::Sent),
        Some(Error::SideEffectIsAlreadyScheduledToExecuteOverXBI)
    );
    assert_eq!(
        schedule_refusal(XBIStatus::Resolved),
        Some(Error::SideEffectIsAlreadyScheduledToExecuteOverXBI)
    );
}

#[test]
fn answers_of_portal_and_protocol_are_read() {
    assert_eq!(finalized_height(Ok(Some(vec![7, 0]))), Ok(vec![7, 0]));
    assert_eq!(finalized_height(Ok(Some(vec![]))), Ok(vec![]));
    assert_eq!(finalized_height(Ok(None)), Err("target height not found"));
    assert_eq!(finalized_height(Err("gateway is off")), Err("gateway is off"));
    assert_eq!(
        decoded_or_refused(Ok((vec![vec![1], vec![2, 3]], vec![4]))),
        Ok((vec![vec![1], vec![2, 3]], vec![4]))
    );
    assert_eq!(
        decoded_or_refused(Err("no such block")),
        Err("SideEffect confirmation failed!")
    );
    assert_eq!(protocol_verdict(Ok(())), Ok(()));
    assert_eq!(
        protocol_verdict(Err("arguments differ")),
        Err("Execution can't be confirmed.")
    );
}

#[test]
fn side_effect_decodes_from_its_encoding() {
    let mut side_effect = sfx(9, 1);
    side_effect.enforce_executioner = Some(BOB);
    let encoded = (
        side_effect.target,
        side_effect.prize,
        side_effect.ordered_at,
        side_effect.encoded_action.clone(),
        side_effect.encoded_args.clone(),
        side_effect.signature.clone(),
        side_effect.enforce_executioner,
    )
        .encode();
    assert_eq!(decode_side_effect(&encoded), Some(side_effect.clone()));
    let decoded = decode_side_effect(&encoded).unwrap();
    assert_eq!(decoded.generate_id(), blake2(&encoded).0);
    assert!(decoded.is_encodable());
    let cut: Vec<u8> = encoded[..encoded.len() - 1].to_vec();
    assert_eq!(decode_side_effect(&cut), None);
    assert_eq!(decode_side_effect(&vec![]), None);
}
