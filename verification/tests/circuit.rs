use pallet_circuit::error::{DispatchError, Error};
use pallet_circuit::events::Event;
use pallet_circuit::identity::generate_xtx_id;
use pallet_circuit::interfaces::{
    AccountManager, Config, EscrowTrait, Portal, SideEffectsProtocol, XBIPortal, XBIPromise, Xdns,
};
use pallet_circuit::local::{LocalStateExecutionView, NOT_AVAILABLE};
use pallet_circuit::pallet::{Constants, Pallet};
use pallet_circuit::primitives::{
    AccountId, Balance, BenefitSource, CircuitRole, ConfirmedSideEffect, FullSideEffect,
    GatewayType, LocalState, Origin, Outcome, SecurityLvl, SideEffect, SideEffectId, TargetId,
    H256,
};
use pallet_circuit::signal::{ExecutionSignal, KillReason, SignalKind};
use pallet_circuit::status::{BondStatus, CircuitStatus};
use pallet_circuit::weights::RuntimeDbWeight;
use pallet_circuit::xbi::{
    XBICheckIn, XBICheckOut, XBICheckOutStatus, XBIFormat, XBIInstr, XBIMetadata, XBIStatus,
};
use parity_scale_codec::Encode;

const INTERNAL: TargetId = *b"intl";
const ON_CIRCUIT: TargetId = *b"circ";
const REMOTE: TargetId = *b"ksma";
const UNKNOWN: TargetId = *b"none";
const SELF_GATEWAY: TargetId = [3, 3, 3, 3];

const ALICE: AccountId = [1u8; 32];
const BOB: AccountId = [2u8; 32];
const CHARLIE: AccountId = [3u8; 32];
const ESCROW: AccountId = [9u8; 32];

struct Names;

impl Xdns for Names {
    fn get_abi(&self, target: TargetId) -> Result<Vec<u8>, &'static str> {
        if target == UNKNOWN {
            Err("Xdns record not found")
        } else {
            Ok(vec![1, 2, 3])
        }
    }

    fn allowed_side_effects(&self, _target: &TargetId) -> Vec<[u8; 4]> {
        vec![*b"tran"]
    }

    fn get_gateway_type_unsafe(&self, target: &TargetId) -> GatewayType {
        if *target == INTERNAL {
            GatewayType::ProgrammableInternal(0)
        } else if *target == ON_CIRCUIT {
            GatewayType::OnCircuit(0)
        } else {
            GatewayType::TxOnly(0)
        }
    }

    fn get_gateway_para_id(&self, _target: &TargetId) -> Result<u32, DispatchError> {
        Ok(3333)
    }

    fn fetch_side_effect_interface(&self, _id: [u8; 4]) -> Result<Vec<u8>, &'static str> {
        Ok(vec![])
    }

    fn get_gateway_security_coordinates(
        &self,
        _target: &TargetId,
    ) -> Result<Vec<u8>, &'static str> {
        Ok(vec![])
    }
}

struct Heights {
    known: bool,
    accepts: bool,
}

impl Portal for Heights {
    fn get_latest_finalized_height(
        &self,
        _target: TargetId,
    ) -> Result<Option<Vec<u8>>, &'static str> {
        if self.known {
            Ok(Some(vec![42]))
        } else {
            Ok(None)
        }
    }

    fn confirm_and_decode_payload_params(
        &self,
        _target: TargetId,
        _submission_target_height: Vec<u8>,
        _inclusion_data: Vec<u8>,
        _side_effect_id: [u8; 4],
    ) -> Result<(Vec<Vec<u8>>, Vec<u8>), &'static str> {
        if self.accepts {
            Ok((vec![], vec![]))
        } else {
            Err("inclusion proof refused")
        }
    }
}

#[derive(Debug, PartialEq, Eq, Clone)]
enum Charge {
    Deposit(H256, AccountId, Balance, Balance, BenefitSource, CircuitRole),
    Finalize(H256, Outcome, Option<AccountId>, Option<Balance>),
    TryFinalize(H256, Outcome),
}

struct Ledger {
    charges: Vec<Charge>,
    refuses: bool,
}

impl AccountManager for Ledger {
    fn deposit(
        &mut self,
        charge_id: H256,
        payer: &AccountId,
        charge_fee: Balance,
        offered_reward: Balance,
        source: BenefitSource,
        role: CircuitRole,
        _recipient: Option<AccountId>,
    ) -> Result<(), DispatchError> {
        if self.refuses {
            return Err(DispatchError::Other("no funds"));
        }
        self.charges.push(Charge::Deposit(
            charge_id,
            *payer,
            charge_fee,
            offered_reward,
            source,
            role,
        ));
        Ok(())
    }

    fn finalize(
        &mut self,
        charge_id: H256,
        outcome: Outcome,
        maybe_recipient: Option<AccountId>,
        maybe_actual_fees: Option<Balance>,
    ) -> Result<(), DispatchError> {
        if self.refuses {
            return Err(DispatchError::Other("no charge"));
        }
        self.charges.push(Charge::Finalize(
            charge_id,
            outcome,
            maybe_recipient,
            maybe_actual_fees,
        ));
        Ok(())
    }

    fn try_finalize(
        &mut self,
        charge_id: H256,
        outcome: Outcome,
        _maybe_recipient: Option<AccountId>,
        _maybe_actual_fees: Option<Balance>,
    ) -> bool {
        self.charges.push(Charge::TryFinalize(charge_id, outcome));
        true
    }
}

struct Vault {
    transfers: Vec<(AccountId, AccountId, Balance)>,
    refuses: bool,
}

impl EscrowTrait for Vault {
    fn transfer(
        &mut self,
        source: &AccountId,
        dest: &AccountId,
        value: Balance,
    ) -> Result<(), DispatchError> {
        if self.refuses {
            return Err(DispatchError::Other("no balance"));
        }
        self.transfers.push((*source, *dest, value));
        Ok(())
    }
}

// A side effect declares insurance by a last argument of 32 bytes: the insurance
// and the reward, 16 bytes each, least significant byte first.
struct Rules {
    accepts: bool,
}

impl SideEffectsProtocol for Rules {
    fn notice_gateway(&mut self, _target: TargetId, _allowed_side_effects: Vec<[u8; 4]>) {}

    fn validate_args(
        &mut self,
        side_effect: &SideEffect,
        _gateway_abi: &Vec<u8>,
        local_state: &mut LocalState,
    ) -> Result<(), &'static str> {
        if side_effect.encoded_action.is_empty() {
            return Err("action missing");
        }
        local_state.state.push(([7u8; 32], side_effect.encoded_action.clone()));
        Ok(())
    }

    fn check_if_insurance_required(
        &self,
        side_effect: &SideEffect,
        _local_state: &mut LocalState,
    ) -> Result<Option<[Balance; 2]>, &'static str> {
        match side_effect.encoded_args.last() {
            Some(arg) if arg.len() == 32 => {
                let mut insurance = [0u8; 16];
                let mut reward = [0u8; 16];
                insurance.copy_from_slice(&arg[0..16]);
                reward.copy_from_slice(&arg[16..32]);
                Ok(Some([
                    u128::from_le_bytes(insurance),
                    u128::from_le_bytes(reward),
                ]))
            }
            _ => Ok(None),
        }
    }

    fn confirmation_plug(
        &self,
        _side_effect_interface: &Vec<u8>,
        _params: Vec<Vec<u8>>,
        _source: Vec<u8>,
        _local_state: &LocalState,
        _side_effect_id: Option<Vec<u8>>,
        _security_lvl: SecurityLvl,
        _security_coordinates: Vec<u8>,
    ) -> Result<(), &'static str> {
        if self.accepts {
            Ok(())
        } else {
            Err("parameters differ")
        }
    }
}

struct Bus {
    known: Vec<SideEffectId>,
    check_in: Option<XBIInstr>,
    origin: Option<AccountId>,
}

fn copy_instr(instr: &XBIInstr) -> XBIInstr {
    match instr {
        XBIInstr::Transfer { dest, value } => XBIInstr::Transfer { dest: *dest, value: *value },
        XBIInstr::CallNative { payload } => XBIInstr::CallNative { payload: payload.clone() },
        XBIInstr::Unknown { identifier, params } => {
            XBIInstr::Unknown { identifier: *identifier, params: params.clone() }
        }
        _ => XBIInstr::CallNative { payload: vec![] },
    }
}

impl XBIPortal for Bus {
    fn get_status(&self, xbi_id: SideEffectId) -> XBIStatus {
        if self.known.contains(&xbi_id) {
            XBIStatus::Sent
        } else {
            XBIStatus::UnknownId
        }
    }

    fn get_check_in(&self, xbi_id: SideEffectId) -> Result<XBICheckIn, DispatchError> {
        match &self.check_in {
            Some(instr) => Ok(XBICheckIn {
                xbi: XBIFormat {
                    instr: copy_instr(instr),
                    metadata: XBIMetadata::new_with_default_timeouts(
                        xbi_id,
                        3333,
                        3334,
                        10,
                        20,
                        self.origin,
                    ),
                },
                notification_delivery_timeout: 5,
                notification_execution_timeout: 6,
            }),
            None => Err(DispatchError::Other("no check in")),
        }
    }

    fn get_check_out(&self, _xbi_id: SideEffectId) -> Result<XBICheckOut, DispatchError> {
        Ok(XBICheckOut {
            xbi: XBIInstr::Result {
                outcome: XBICheckOutStatus::SuccessfullyExecuted,
                output: vec![],
                witness: vec![],
            },
            resolution_status: XBICheckOutStatus::SuccessfullyExecuted,
            checkout_timeout: 0,
            actual_execution_cost: 1,
            actual_delivery_cost: 1,
            actual_aggregated_cost: 2,
        })
    }

    fn sfx_2_xbi(
        &self,
        side_effect: &SideEffect,
        metadata: XBIMetadata,
    ) -> Result<XBIFormat, DispatchError> {
        Ok(XBIFormat {
            instr: XBIInstr::CallNative { payload: side_effect.encoded_action.clone() },
            metadata,
        })
    }

    fn encode(&self, xbi: &XBIFormat) -> Vec<u8> {
        let mut bytes = xbi.metadata.id.to_vec();
        bytes.extend_from_slice(&xbi.metadata.max_exec_cost.to_le_bytes());
        bytes
    }

    fn total_max_costs_in_local_currency(
        &self,
        metadata: &XBIMetadata,
    ) -> Result<Balance, DispatchError> {
        Ok(metadata.max_exec_cost + metadata.max_notifications_cost)
    }

    fn xbi_result_2_sfx_confirmation(
        &self,
        _xbi: &XBIFormat,
        _exit_event: &Event,
        executor: AccountId,
    ) -> Result<ConfirmedSideEffect, DispatchError> {
        Ok(confirmation(executor))
    }
}

struct Promise {
    orders: Vec<SideEffectId>,
}

impl XBIPromise for Promise {
    fn register(&mut self, _xbi: XBIFormat, sfx_id: SideEffectId) -> Result<(), DispatchError> {
        self.orders.push(sfx_id);
        Ok(())
    }
}

struct Runtime;

impl Config for Runtime {
    type Xdns = Names;
    type Portal = Heights;
    type AccountManager = Ledger;
    type Escrowed = Vault;
    type Protocol = Rules;
    type XBIPortal = Bus;
    type XBIPromise = Promise;
}

fn constants() -> Constants {
    Constants {
        self_account_id: ESCROW,
        self_gateway_id: SELF_GATEWAY,
        self_para_id: 3334,
        xtx_timeout_default: 100,
        xtx_timeout_check_interval: 1,
        deletion_queue_limit: 100,
        signal_queue_depth: 8,
        db_weight: RuntimeDbWeight { read: 25, write: 100 },
    }
}

fn circuit() -> Pallet<Runtime> {
    let mut pallet = Pallet::<Runtime>::new(
        constants(),
        Names,
        Heights { known: true, accepts: true },
        Ledger { charges: vec![], refuses: false },
        Vault { transfers: vec![], refuses: false },
        Rules { accepts: true },
        Bus { known: vec![], check_in: None, origin: None },
        Promise { orders: vec![] },
    );
    pallet.block_number = 1;
    pallet
}

fn side_effect(target: TargetId, prize: Balance, tag: u8) -> SideEffect {
    SideEffect {
        target,
        prize,
        ordered_at: 0,
        encoded_action: b"tran".to_vec(),
        encoded_args: vec![vec![tag]],
        signature: vec![],
        enforce_executioner: None,
    }
}

fn insured(target: TargetId, prize: Balance, insurance: Balance, reward: Balance) -> SideEffect {
    let mut arg = insurance.to_le_bytes().to_vec();
    arg.extend_from_slice(&reward.to_le_bytes());
    SideEffect {
        target,
        prize,
        ordered_at: 0,
        encoded_action: b"tran".to_vec(),
        encoded_args: vec![vec![1], arg],
        signature: vec![],
        enforce_executioner: None,
    }
}

fn confirmation(executioner: AccountId) -> ConfirmedSideEffect {
    ConfirmedSideEffect {
        err: None,
        output: None,
        inclusion_data: vec![5, 5],
        executioner,
        received_at: 2,
        cost: Some(1),
    }
}

fn fresh_id(requester: &AccountId) -> H256 {
    generate_xtx_id(requester, 101)
}

fn status_of(pallet: &Pallet<Runtime>, id: &H256) -> CircuitStatus {
    pallet.stores.x_exec_signals.get(id).unwrap().status
}

fn steps_of(pallet: &Pallet<Runtime>, id: &H256) -> Vec<Vec<FullSideEffect>> {
    pallet.stores.full_side_effects.get(id).unwrap().clone()
}

fn submit(pallet: &mut Pallet<Runtime>, bundle: Vec<SideEffect>) -> H256 {
    pallet.on_extrinsic_trigger(Origin::Signed(ALICE), bundle, 0, false).unwrap();
    fresh_id(&ALICE)
}

#[test]
fn happy_path_single_escrowed_side_effect() {
    let mut pallet = circuit();
    let sfx = side_effect(INTERNAL, 10, 1);
    let sfx_id = sfx.generate_id();
    let events = pallet
        .on_extrinsic_trigger(Origin::Signed(ALICE), vec![sfx.clone()], 0, false)
        .unwrap();
    let id = fresh_id(&ALICE);
    assert_eq!(
        events,
        vec![
            Event::NewSideEffectsAvailable(ALICE, id, vec![sfx.clone()], vec![sfx_id]),
            Event::XTransactionReadyForExec(id),
        ]
    );
    let xtx = pallet.stores.x_exec_signals.get(&id).unwrap();
    assert_eq!(xtx.status, CircuitStatus::Ready);
    assert_eq!(xtx.steps_cnt, (0, 1));
    assert_eq!(xtx.requester, ALICE);
    assert_eq!(xtx.timeouts_at, 101);
    let steps = steps_of(&pallet, &id);
    assert_eq!(steps.len(), 1);
    assert_eq!(steps[0].len(), 1);
    assert_eq!(steps[0][0].security_lvl, SecurityLvl::Escrowed);
    assert_eq!(steps[0][0].submission_target_height, vec![42]);
    assert_eq!(steps[0][0].confirmed, None);
    assert_eq!(
        pallet.account_manager.charges,
        vec![Charge::Deposit(
            sfx_id,
            ALICE,
            0,
            10,
            BenefitSource::TrafficRewards,
            CircuitRole::Requester
        )]
    );
    assert_eq!(pallet.stores.local_side_effect_to_xtx_id_links.get(&sfx_id), Some(&id));
    assert_eq!(pallet.stores.active_x_exec_signals_timing_links.get(&id), Some(&101));

    let events = pallet
        .confirm_side_effect(Origin::Signed(BOB), id, sfx, confirmation(CHARLIE), None, None)
        .unwrap();
    let steps = steps_of(&pallet, &id);
    assert_eq!(steps[0][0].confirmed, Some(confirmation(CHARLIE)));
    assert_eq!(
        events,
        vec![
            Event::SideEffectConfirmed(sfx_id),
            Event::XTransactionXtxFinishedExecAllSteps(id),
            Event::SideEffectsConfirmed(id, steps),
        ]
    );
    let xtx = pallet.stores.x_exec_signals.get(&id).unwrap();
    assert_eq!(xtx.status, CircuitStatus::FinishedAllSteps);
    assert_eq!(xtx.steps_cnt, (1, 1));
    // the transaction is over: its timing link is gone and its charge is committed
    assert_eq!(pallet.stores.active_x_exec_signals_timing_links.get(&id), None);
    assert_eq!(pallet.stores.active_x_exec_signals_timing_links.len(), 0);
    assert_eq!(
        pallet.account_manager.charges,
        vec![
            Charge::Deposit(
                sfx_id,
                ALICE,
                0,
                10,
                BenefitSource::TrafficRewards,
                CircuitRole::Requester
            ),
            Charge::Finalize(sfx_id, Outcome::Commit, Some(CHARLIE), Some(1)),
        ]
    );
    // the sweep leaves a finished transaction alone
    pallet.on_initialize(500);
    assert_eq!(status_of(&pallet, &id), CircuitStatus::FinishedAllSteps);
}

#[test]
fn optimistic_side_effect_waits_for_its_bond() {
    let mut pallet = circuit();
    let sfx = insured(REMOTE, 3, 5, 3);
    let sfx_id = sfx.generate_id();
    let events = pallet
        .on_extrinsic_trigger(Origin::Signed(ALICE), vec![sfx.clone()], 0, false)
        .unwrap();
    let id = fresh_id(&ALICE);
    assert_eq!(status_of(&pallet, &id), CircuitStatus::PendingInsurance);
    assert_eq!(events[1], Event::XTransactionReceivedForExec(id));
    assert_eq!(steps_of(&pallet, &id)[0][0].security_lvl, SecurityLvl::Optimistic);
    let deposit = *pallet.stores.insurance_deposits.get(&(id, sfx_id)).unwrap();
    assert_eq!(deposit.insurance, 5);
    assert_eq!(deposit.reward, 3);
    assert_eq!(deposit.reserved_bond, 0);
    assert_eq!(deposit.requester, ALICE);
    assert_eq!(deposit.bonded_relayer, None);
    assert_eq!(deposit.status, BondStatus::Requested);
    assert_eq!(deposit.requested_at, 1);
    assert_eq!(pallet.stores.xtx_insurance_links.get(&id), Some(&vec![sfx_id]));

    pallet.block_number = 2;
    let events = pallet.bond_insurance_deposit(Origin::Signed(BOB), id, sfx_id).unwrap();
    assert_eq!(
        events,
        vec![
            Event::SideEffectInsuranceReceived(sfx_id, BOB),
            Event::XTransactionReadyForExec(id),
        ]
    );
    assert_eq!(status_of(&pallet, &id), CircuitStatus::Ready);
    assert_eq!(pallet.escrow.transfers, vec![(BOB, ESCROW, 5)]);
    let deposit = *pallet.stores.insurance_deposits.get(&(id, sfx_id)).unwrap();
    assert_eq!(deposit.reserved_bond, 5);
    assert_eq!(deposit.bonded_relayer, Some(BOB));
    assert_eq!(deposit.status, BondStatus::Bonded);
    assert_eq!(deposit.bonded_at, Some(2));

    pallet
        .confirm_side_effect(Origin::Signed(BOB), id, sfx.clone(), confirmation(BOB), None, None)
        .unwrap();
    assert_eq!(status_of(&pallet, &id), CircuitStatus::FinishedAllSteps);
    assert_eq!(
        pallet.escrow.transfers,
        vec![(BOB, ESCROW, 5), (ESCROW, BOB, 5), (ESCROW, BOB, 3)]
    );
    assert_eq!(pallet.stores.active_x_exec_signals_timing_links.len(), 0);

    let before = pallet.escrow.transfers.len();
    assert_eq!(
        pallet.confirm_side_effect(Origin::Signed(BOB), id, sfx, confirmation(BOB), None, None),
        Err(DispatchError::Module(Error::ApplyTriggeredWithUnexpectedStatus))
    );
    assert_eq!(
        pallet.bond_insurance_deposit(Origin::Signed(BOB), id, sfx_id),
        Err(DispatchError::Module(Error::ApplyTriggeredWithUnexpectedStatus))
    );
    assert_eq!(pallet.escrow.transfers.len(), before);
    assert_eq!(status_of(&pallet, &id), CircuitStatus::FinishedAllSteps);
}

#[test]
fn bond_is_refused_without_a_deposit_twice_and_without_funds() {
    let mut pallet = circuit();
    let sfx = insured(REMOTE, 3, 5, 3);
    let sfx_id = sfx.generate_id();
    let id = submit(&mut pallet, vec![sfx]);
    assert_eq!(
        pallet.bond_insurance_deposit(Origin::Signed(BOB), id, [8u8; 32]),
        Err(DispatchError::Module(Error::InsuranceBondNotRequired))
    );
    pallet.escrow.refuses = true;
    let before = pallet.stores.clone();
    assert_eq!(
        pallet.bond_insurance_deposit(Origin::Signed(BOB), id, sfx_id),
        Err(DispatchError::Module(Error::InsuranceBondTooLow))
    );
    assert_eq!(pallet.stores, before);
    pallet.escrow.refuses = false;
    assert!(pallet.bond_insurance_deposit(Origin::Signed(BOB), id, sfx_id).is_ok());
    let before = pallet.stores.clone();
    assert_eq!(
        pallet.bond_insurance_deposit(Origin::Signed(CHARLIE), id, sfx_id),
        Err(DispatchError::Module(Error::InsuranceBondAlreadyDeposited))
    );
    assert_eq!(pallet.stores, before);
    assert_eq!(
        pallet.bond_insurance_deposit(Origin::Root, id, sfx_id),
        Err(DispatchError::BadOrigin)
    );
    assert_eq!(
        pallet.bond_insurance_deposit(Origin::Signed(BOB), [4u8; 32], sfx_id),
        Err(DispatchError::Module(Error::SetupFailedUnknownXtx))
    );
}

#[test]
fn timeout_reverts_at_its_block_and_not_before() {
    let mut pallet = circuit();
    let first = side_effect(REMOTE, 4, 1);
    let second = side_effect(REMOTE, 6, 2);
    let ids = vec![first.generate_id(), second.generate_id()];
    let id = submit(&mut pallet, vec![first, second]);
    assert_eq!(status_of(&pallet, &id), CircuitStatus::Ready);
    pallet.account_manager.charges.clear();

    let (weight, events) = pallet.on_initialize(100);
    assert_eq!(weight, 0);
    assert_eq!(events, vec![]);
    assert_eq!(status_of(&pallet, &id), CircuitStatus::Ready);
    assert!(pallet.stores.active_x_exec_signals_timing_links.contains_key(&id));

    let (_, events) = pallet.on_initialize(101);
    assert_eq!(events, vec![Event::XTransactionXtxRevertedAfterTimeOut(id)]);
    assert_eq!(status_of(&pallet, &id), CircuitStatus::RevertTimedOut);
    assert!(!pallet.stores.active_x_exec_signals_timing_links.contains_key(&id));
    assert_eq!(
        pallet.account_manager.charges,
        vec![Charge::TryFinalize(ids[0], Outcome::Revert)]
    );

    let (_, events) = pallet.on_initialize(102);
    assert_eq!(events, vec![]);
}

#[test]
fn timeout_slashes_the_bonds_that_are_held() {
    let mut pallet = circuit();
    let sfx = insured(REMOTE, 3, 5, 3);
    let sfx_id = sfx.generate_id();
    let id = submit(&mut pallet, vec![sfx]);
    pallet.bond_insurance_deposit(Origin::Signed(BOB), id, sfx_id).unwrap();
    pallet.escrow.transfers.clear();
    let mut ctx = pallet.setup(CircuitStatus::RevertTimedOut, &ESCROW, 0, Some(id)).unwrap();
    assert_eq!(pallet.kill(&mut ctx, CircuitStatus::RevertTimedOut), Ok(()));
    assert_eq!(ctx.xtx.status, CircuitStatus::RevertTimedOut);
    assert_eq!(ctx.insurance_deposits[0].1.status, BondStatus::Slashed);
    // the reward goes back to the requester once: the second slash finds nothing
    assert_eq!(pallet.escrow.transfers, vec![(ESCROW, ALICE, 3)]);
    assert_eq!(status_of(&pallet, &id), CircuitStatus::RevertTimedOut);
}

#[test]
fn sweep_is_limited_to_one_execution_and_by_the_deletion_limit() {
    let mut pallet = circuit();
    let id = submit(&mut pallet, vec![side_effect(REMOTE, 0, 1)]);
    pallet.on_extrinsic_trigger(Origin::Signed(BOB), vec![side_effect(REMOTE, 0, 2)], 0, false)
        .unwrap();
    let other = fresh_id(&BOB);
    pallet.constants.deletion_queue_limit = 0;
    pallet.on_initialize(200);
    assert_eq!(status_of(&pallet, &id), CircuitStatus::Ready);
    pallet.constants.deletion_queue_limit = 1;
    pallet.on_initialize(201);
    assert_eq!(status_of(&pallet, &id), CircuitStatus::RevertTimedOut);
    assert_eq!(status_of(&pallet, &other), CircuitStatus::Ready);
    pallet.on_initialize(202);
    assert_eq!(status_of(&pallet, &other), CircuitStatus::RevertTimedOut);
    pallet.constants.xtx_timeout_check_interval = 10;
    submit(&mut pallet, vec![side_effect(REMOTE, 0, 3)]);
    let third = generate_xtx_id(&ALICE, 302);
    pallet.on_initialize(1003);
    assert_eq!(status_of(&pallet, &third), CircuitStatus::Ready);
    pallet.on_initialize(1010);
    assert_eq!(status_of(&pallet, &third), CircuitStatus::RevertTimedOut);
}

#[test]
fn mixed_bundle_is_ordered_and_laid_out_in_steps() {
    let mut pallet = circuit();
    let a = side_effect(INTERNAL, 1, b'a');
    let b = side_effect(REMOTE, 1, b'b');
    let c = insured(REMOTE, 1, 2, 1);
    let d = side_effect(REMOTE, 1, b'd');
    let id = submit(&mut pallet, vec![a.clone(), b.clone(), c.clone(), d.clone()]);
    let steps = steps_of(&pallet, &id);
    assert_eq!(steps.len(), 3);
    let inputs: Vec<Vec<SideEffect>> =
        steps.iter().map(|s| s.iter().map(|f| f.input.clone()).collect()).collect();
    assert_eq!(inputs, vec![vec![a, c], vec![b], vec![d]]);
    assert_eq!(steps[0][0].security_lvl, SecurityLvl::Escrowed);
    assert_eq!(steps[0][1].security_lvl, SecurityLvl::Optimistic);
    assert_eq!(steps[1][0].security_lvl, SecurityLvl::Dirty);
    assert_eq!(steps[2][0].security_lvl, SecurityLvl::Dirty);
    assert_eq!(pallet.stores.x_exec_signals.get(&id).unwrap().steps_cnt, (0, 3));
    assert_eq!(status_of(&pallet, &id), CircuitStatus::PendingInsurance);
}

#[test]
fn escrowed_side_effects_precede_optimistic_ones() {
    let mut pallet = circuit();
    let c = insured(REMOTE, 1, 2, 1);
    let a = side_effect(ON_CIRCUIT, 1, b'a');
    let id = submit(&mut pallet, vec![c.clone(), a.clone()]);
    let steps = steps_of(&pallet, &id);
    assert_eq!(steps.len(), 1);
    assert_eq!(steps[0][0].input, a);
    assert_eq!(steps[0][1].input, c);
}

#[test]
fn bundle_of_dirty_side_effects_has_a_step_for_each() {
    let mut pallet = circuit();
    let bundle: Vec<SideEffect> = (0..5u8).map(|i| side_effect(REMOTE, 1, i)).collect();
    let id = submit(&mut pallet, bundle.clone());
    let steps = steps_of(&pallet, &id);
    assert_eq!(steps.len(), 5);
    for (i, step) in steps.iter().enumerate() {
        assert_eq!(step.len(), 1);
        assert_eq!(step[0].input, bundle[i]);
        assert_eq!(step[0].security_lvl, SecurityLvl::Dirty);
    }
}

#[test]
fn bundle_without_side_effects_is_refused() {
    let mut pallet = circuit();
    let before = pallet.stores.clone();
    assert_eq!(
        pallet.on_extrinsic_trigger(Origin::Signed(ALICE), vec![], 0, false),
        Err(DispatchError::Module(Error::SideEffectsValidationFailed))
    );
    assert_eq!(pallet.stores, before);
    assert!(pallet.account_manager.charges.is_empty());
}

#[test]
fn admission_is_refused_for_bad_bundles_and_origins() {
    let mut pallet = circuit();
    let before = pallet.stores.clone();
    assert_eq!(
        pallet.on_extrinsic_trigger(Origin::Unsigned, vec![side_effect(REMOTE, 1, 1)], 0, false),
        Err(DispatchError::BadOrigin)
    );
    assert_eq!(
        pallet.on_extrinsic_trigger(Origin::Root, vec![side_effect(REMOTE, 1, 1)], 0, false),
        Err(DispatchError::BadOrigin)
    );
    // unknown target
    assert_eq!(
        pallet.on_extrinsic_trigger(
            Origin::Signed(ALICE),
            vec![side_effect(UNKNOWN, 1, 1)],
            0,
            false
        ),
        Err(DispatchError::Module(Error::SideEffectsValidationFailed))
    );
    // the prize differs from the reward of the insurance
    assert_eq!(
        pallet.on_extrinsic_trigger(Origin::Signed(ALICE), vec![insured(REMOTE, 4, 5, 3)], 0, false),
        Err(DispatchError::Module(Error::SideEffectsValidationFailed))
    );
    // the portal knows no height of the target
    pallet.portal.known = false;
    assert_eq!(
        pallet.on_extrinsic_trigger(Origin::Signed(ALICE), vec![side_effect(REMOTE, 1, 1)], 0, false),
        Err(DispatchError::Module(Error::SideEffectsValidationFailed))
    );
    pallet.portal.known = true;
    // the account manager refuses the charge
    pallet.account_manager.refuses = true;
    assert_eq!(
        pallet.on_extrinsic_trigger(Origin::Signed(ALICE), vec![side_effect(REMOTE, 1, 1)], 0, false),
        Err(DispatchError::Module(Error::ChargingTransferFailed))
    );
    assert_eq!(pallet.stores, before);
    // nothing is charged for a side effect without a prize
    assert!(pallet
        .on_extrinsic_trigger(Origin::Signed(ALICE), vec![side_effect(REMOTE, 0, 1)], 0, false)
        .is_ok());
}

#[test]
fn second_confirmation_leaves_the_stores_as_they_are() {
    let mut pallet = circuit();
    let first = side_effect(INTERNAL, 1, 1);
    let second = side_effect(INTERNAL, 1, 2);
    let id = submit(&mut pallet, vec![first.clone(), second.clone()]);
    pallet
        .confirm_side_effect(Origin::Signed(BOB), id, first.clone(), confirmation(BOB), None, None)
        .unwrap();
    assert_eq!(status_of(&pallet, &id), CircuitStatus::PendingExecution);
    let before = pallet.stores.clone();
    assert_eq!(
        pallet.confirm_side_effect(
            Origin::Signed(CHARLIE),
            id,
            first,
            confirmation(CHARLIE),
            None,
            None
        ),
        Err(DispatchError::Other("Side Effect already confirmed"))
    );
    assert_eq!(pallet.stores, before);
    pallet
        .confirm_side_effect(Origin::Signed(BOB), id, second.clone(), confirmation(BOB), None, None)
        .unwrap();
    assert_eq!(status_of(&pallet, &id), CircuitStatus::FinishedAllSteps);
    let before = pallet.stores.clone();
    assert_eq!(
        pallet.confirm_side_effect(Origin::Signed(BOB), id, second, confirmation(BOB), None, None),
        Err(DispatchError::Module(Error::ApplyTriggeredWithUnexpectedStatus))
    );
    assert_eq!(pallet.stores, before);
}

#[test]
fn confirmation_is_refused_outside_the_current_step() {
    let mut pallet = circuit();
    let first = side_effect(REMOTE, 1, 1);
    let second = side_effect(REMOTE, 1, 2);
    let id = submit(&mut pallet, vec![first.clone(), second.clone()]);
    let before = pallet.stores.clone();
    assert_eq!(
        pallet.confirm_side_effect(
            Origin::Signed(BOB),
            id,
            second.clone(),
            confirmation(BOB),
            None,
            None
        ),
        Err(DispatchError::Other("Unable to find matching Side Effect in given Xtx to confirm"))
    );
    let mut short = side_effect(REMOTE, 1, 1);
    short.encoded_action = b"tr".to_vec();
    assert_eq!(
        pallet.confirm_side_effect(Origin::Signed(BOB), id, short, confirmation(BOB), None, None),
        Err(DispatchError::Other("Side effect action must hold four bytes"))
    );
    pallet.portal.accepts = false;
    assert_eq!(
        pallet.confirm_side_effect(
            Origin::Signed(BOB),
            id,
            first.clone(),
            confirmation(BOB),
            None,
            None
        ),
        Err(DispatchError::Other("SideEffect confirmation failed!"))
    );
    pallet.portal.accepts = true;
    pallet.protocol.accepts = false;
    assert_eq!(
        pallet.confirm_side_effect(
            Origin::Signed(BOB),
            id,
            first.clone(),
            confirmation(BOB),
            None,
            None
        ),
        Err(DispatchError::Other("Execution can't be confirmed."))
    );
    assert_eq!(pallet.stores, before);
    pallet.protocol.accepts = true;
    let events = pallet
        .confirm_side_effect(Origin::Signed(BOB), id, first, confirmation(BOB), None, None)
        .unwrap();
    assert_eq!(events[1], Event::XTransactionStepFinishedExec(id));
    assert_eq!(status_of(&pallet, &id), CircuitStatus::Finished);
    assert_eq!(pallet.stores.x_exec_signals.get(&id).unwrap().steps_cnt, (1, 2));
    pallet
        .confirm_side_effect(Origin::Signed(BOB), id, second, confirmation(BOB), None, None)
        .unwrap();
    assert_eq!(status_of(&pallet, &id), CircuitStatus::FinishedAllSteps);
    assert_eq!(pallet.stores.x_exec_signals.get(&id).unwrap().steps_cnt, (2, 2));
}

#[test]
fn signal_queue_takes_no_more_than_its_depth() {
    let mut pallet = circuit();
    let signal = ExecutionSignal::new(&[5u8; 32], None, SignalKind::Complete);
    assert_eq!(signal.step, 0);
    for _ in 0..8 {
        assert_eq!(pallet.on_signal(Origin::Signed(ALICE), signal), Ok(()));
    }
    assert_eq!(pallet.stores.signal_queue.len(), 8);
    assert_eq!(
        pallet.on_signal(Origin::Signed(ALICE), signal),
        Err(DispatchError::Module(Error::SignalQueueFull))
    );
    assert_eq!(pallet.stores.signal_queue.len(), 8);
    assert_eq!(pallet.on_signal(Origin::Unsigned, signal), Err(DispatchError::BadOrigin));
}

#[test]
fn kill_signal_reverts_the_execution_at_the_next_block() {
    let mut pallet = circuit();
    let sfx = side_effect(INTERNAL, 2, 1);
    let sfx_id = sfx.generate_id();
    let id = submit(&mut pallet, vec![sfx]);
    pallet.account_manager.charges.clear();
    let signal = ExecutionSignal::new(&id, Some(0), SignalKind::Kill(KillReason::Unhandled));
    pallet.on_signal(Origin::Signed(ALICE), signal).unwrap();
    let (weight, events) = pallet.process_signal_queue();
    // four reads to load, two reads and a write to handle, a read and a write for the queue
    assert_eq!(weight, 4 * 25 + (2 * 25 + 100) + (25 + 100));
    assert_eq!(events, vec![]);
    assert!(pallet.stores.signal_queue.is_empty());
    assert_eq!(
        pallet.account_manager.charges,
        vec![Charge::TryFinalize(sfx_id, Outcome::Revert)]
    );
    assert_eq!(status_of(&pallet, &id), CircuitStatus::RevertKill);
    assert!(!pallet.stores.active_x_exec_signals_timing_links.contains_key(&id));
    // a second kill finds the transaction over and changes nothing
    let before = pallet.stores.clone();
    let mut ctx = pallet.setup(CircuitStatus::Ready, &ALICE, 0, Some(id)).unwrap();
    assert_eq!(
        pallet.kill(&mut ctx, CircuitStatus::RevertTimedOut),
        Err(Error::ApplyTriggeredWithUnexpectedStatus)
    );
    assert_eq!(ctx.xtx.status, CircuitStatus::RevertKill);
    assert_eq!(pallet.stores, before);
    pallet.on_signal(Origin::Signed(ALICE), signal).unwrap();
    let (weight, _) = pallet.process_signal_queue();
    // the signal is examined as often as the budget allows and stays in the queue
    assert_eq!(weight, 2 * 4 * 25 + (25 + 100));
    assert_eq!(pallet.stores.signal_queue, vec![(ALICE, signal)]);
    assert_eq!(
        pallet.stores.x_exec_signals,
        before.x_exec_signals
    );
}

#[test]
fn signal_for_an_unknown_execution_goes_to_the_tail() {
    let mut pallet = circuit();
    let id = submit(&mut pallet, vec![side_effect(INTERNAL, 0, 1)]);
    let unknown = ExecutionSignal::new(&[5u8; 32], None, SignalKind::Kill(KillReason::Timeout));
    let known = ExecutionSignal::new(&id, None, SignalKind::Kill(KillReason::Codec));
    pallet.on_signal(Origin::Signed(ALICE), unknown).unwrap();
    pallet.on_signal(Origin::Signed(BOB), known).unwrap();
    let (weight, _) = pallet.process_signal_queue();
    // the budget is a quarter of the depth: two signals are examined, one is handled
    assert_eq!(weight, 2 * 4 * 25 + (2 * 25 + 100) + (25 + 100));
    assert_eq!(pallet.stores.signal_queue, vec![(ALICE, unknown)]);
    let (weight, _) = pallet.process_signal_queue();
    assert_eq!(weight, 2 * 4 * 25 + (25 + 100));
    assert_eq!(pallet.stores.signal_queue, vec![(ALICE, unknown)]);
    let mut empty = circuit();
    assert_eq!(empty.process_signal_queue(), (0, vec![]));
}

#[test]
fn complete_signal_finishes_a_confirmed_step_only() {
    let mut pallet = circuit();
    let first = side_effect(REMOTE, 1, 1);
    let second = side_effect(REMOTE, 1, 2);
    let id = submit(&mut pallet, vec![first, second]);
    let signal = ExecutionSignal::new(&id, None, SignalKind::Complete);
    pallet.on_signal(Origin::Signed(ALICE), signal).unwrap();
    let before = pallet.stores.x_exec_signals.clone();
    pallet.process_signal_queue();
    // the step is not confirmed: the settlement is refused and the signal waits
    assert_eq!(pallet.stores.x_exec_signals, before);
    assert_eq!(pallet.stores.signal_queue, vec![(ALICE, signal)]);
}

#[test]
fn fresh_setup_then_kill_leaves_no_trace() {
    let mut pallet = circuit();
    submit(&mut pallet, vec![side_effect(REMOTE, 1, 1)]);
    pallet.account_manager.charges.clear();
    let before = pallet.stores.clone();
    let mut ctx = pallet.setup(CircuitStatus::Requested, &BOB, 7, None).unwrap();
    assert_eq!(ctx.xtx_id, fresh_id(&BOB));
    assert_eq!(ctx.xtx.status, CircuitStatus::Requested);
    assert_eq!(ctx.xtx.steps_cnt, (0, 0));
    assert_eq!(ctx.xtx.total_reward, Some(7));
    assert_eq!(ctx.xtx.timeouts_at, 101);
    assert_eq!(pallet.kill(&mut ctx, CircuitStatus::RevertKill), Ok(()));
    assert_eq!(ctx.xtx.status, CircuitStatus::RevertKill);
    // no trace but the row of the killed transaction
    let id = fresh_id(&BOB);
    assert_eq!(pallet.stores.x_exec_signals.get(&id), Some(&ctx.xtx));
    assert_eq!(pallet.stores.x_exec_signals.len(), before.x_exec_signals.len() + 1);
    assert_eq!(pallet.stores.full_side_effects, before.full_side_effects);
    assert_eq!(pallet.stores.local_xtx_states, before.local_xtx_states);
    assert_eq!(pallet.stores.insurance_deposits, before.insurance_deposits);
    assert_eq!(pallet.stores.xtx_insurance_links, before.xtx_insurance_links);
    assert_eq!(
        pallet.stores.local_side_effect_to_xtx_id_links,
        before.local_side_effect_to_xtx_id_links
    );
    assert_eq!(
        pallet.stores.active_x_exec_signals_timing_links,
        before.active_x_exec_signals_timing_links
    );
    assert_eq!(pallet.stores.signal_queue, before.signal_queue);
    assert!(pallet.account_manager.charges.is_empty());
    assert!(pallet.escrow.transfers.is_empty());
    // a transaction that is over is not killed again
    assert_eq!(
        pallet.setup(CircuitStatus::Ready, &BOB, 0, Some(id)).err(),
        Some(Error::SetupFailedXtxStorageArtifactsNotFound)
    );
}

#[test]
fn setup_refuses_what_it_cannot_load() {
    let mut pallet = circuit();
    let id = submit(&mut pallet, vec![side_effect(REMOTE, 1, 1)]);
    assert_eq!(
        pallet.setup(CircuitStatus::Requested, &ALICE, 0, Some(id)).err(),
        Some(Error::SetupFailedDuplicatedXtx)
    );
    assert!(pallet.setup(CircuitStatus::Requested, &ALICE, 0, Some([4u8; 32])).is_ok());
    assert_eq!(
        pallet.setup(CircuitStatus::Ready, &ALICE, 0, None).err(),
        Some(Error::SetupFailedEmptyXtx)
    );
    assert_eq!(
        pallet.setup(CircuitStatus::Ready, &ALICE, 0, Some([4u8; 32])).err(),
        Some(Error::SetupFailedUnknownXtx)
    );
    assert_eq!(
        pallet.setup(CircuitStatus::Finished, &ALICE, 0, Some(id)).err(),
        Some(Error::SetupFailedIncorrectXtxStatus)
    );
    let loaded = pallet.setup(CircuitStatus::PendingExecution, &ALICE, 0, Some(id)).unwrap();
    assert_eq!(loaded.full_side_effects, steps_of(&pallet, &id));
    assert_eq!(loaded.xtx.status, CircuitStatus::Ready);
    pallet.stores.local_xtx_states.remove(&id);
    assert_eq!(
        pallet.setup(CircuitStatus::Ready, &ALICE, 0, Some(id)).err(),
        Some(Error::SetupFailedXtxStorageArtifactsNotFound)
    );
}

#[test]
fn timing_links_name_the_executions_under_way() {
    let mut pallet = circuit();
    let id = submit(&mut pallet, vec![insured(REMOTE, 3, 5, 3)]);
    pallet.on_extrinsic_trigger(Origin::Signed(BOB), vec![side_effect(REMOTE, 1, 1)], 0, false)
        .unwrap();
    let other = fresh_id(&BOB);
    pallet.on_initialize(101);
    for xtx in [id, other] {
        let under_way = status_of(&pallet, &xtx) < CircuitStatus::FinishedAllSteps;
        assert_eq!(
            pallet.stores.active_x_exec_signals_timing_links.contains_key(&xtx),
            under_way
        );
    }
    assert_eq!(status_of(&pallet, &id), CircuitStatus::RevertTimedOut);
    assert_eq!(status_of(&pallet, &other), CircuitStatus::Ready);
}

#[test]
fn insurance_links_name_the_deposits() {
    let mut pallet = circuit();
    let plain = side_effect(INTERNAL, 1, 1);
    let bonded = insured(REMOTE, 3, 5, 3);
    let ids = (plain.generate_id(), bonded.generate_id());
    let id = submit(&mut pallet, vec![plain, bonded]);
    assert_eq!(pallet.stores.xtx_insurance_links.get(&id), Some(&vec![ids.1]));
    assert!(pallet.stores.insurance_deposits.contains_key(&(id, ids.1)));
    assert!(!pallet.stores.insurance_deposits.contains_key(&(id, ids.0)));
    assert_eq!(pallet.stores.insurance_deposits.len(), 1);
    pallet.bond_insurance_deposit(Origin::Signed(BOB), id, ids.1).unwrap();
    assert_eq!(pallet.stores.xtx_insurance_links.get(&id), Some(&vec![ids.1]));
    assert_eq!(pallet.stores.insurance_deposits.len(), 1);
}

#[test]
fn local_side_effects_are_indexed() {
    let mut pallet = circuit();
    let own = side_effect(SELF_GATEWAY, 0, 1);
    let internal = side_effect(INTERNAL, 0, 2);
    let remote = side_effect(REMOTE, 0, 3);
    let ids = (own.generate_id(), internal.generate_id(), remote.generate_id());
    let id = submit(&mut pallet, vec![own, internal, remote]);
    assert_eq!(pallet.stores.local_side_effect_to_xtx_id_links.get(&ids.0), Some(&id));
    assert_eq!(pallet.stores.local_side_effect_to_xtx_id_links.get(&ids.1), Some(&id));
    assert_eq!(pallet.stores.local_side_effect_to_xtx_id_links.get(&ids.2), None);
}

#[test]
fn local_state_is_loaded_or_made() {
    let mut pallet = circuit();
    let view = pallet.load_local_state(&Origin::Signed(ALICE), None).unwrap();
    let id = fresh_id(&ALICE);
    assert_eq!(
        view,
        LocalStateExecutionView::new(id, LocalState::new(), vec![], (0, 0))
    );
    assert_eq!(status_of(&pallet, &id), CircuitStatus::Requested);
    assert!(pallet.stores.active_x_exec_signals_timing_links.contains_key(&id));
    let before = pallet.stores.clone();
    let again = pallet.load_local_state(&Origin::Signed(BOB), Some(id)).unwrap();
    assert_eq!(again, view);
    assert_eq!(pallet.stores, before);
    assert_eq!(
        pallet.load_local_state(&Origin::Signed(BOB), Some([4u8; 32])),
        Err(DispatchError::Module(Error::SetupFailedUnknownXtx))
    );
    assert_eq!(
        pallet.load_local_state(&Origin::Root, None),
        Err(DispatchError::BadOrigin)
    );
}

#[test]
fn local_trigger_is_decoded_and_its_empty_bundle_refused() {
    let mut pallet = circuit();
    let id = submit(&mut pallet, vec![side_effect(REMOTE, 1, 1)]);
    let before = pallet.stores.clone();
    let fresh = (None::<H256>, BOB, Vec::<Vec<u8>>::new()).encode();
    assert_eq!(
        pallet.on_local_trigger(Origin::Signed(BOB), fresh.clone()),
        Err(DispatchError::Other("No side effects provided"))
    );
    assert_eq!(
        pallet.on_local_trigger(Origin::Unsigned, fresh),
        Err(DispatchError::BadOrigin)
    );
    let known = (Some(id), BOB, vec![vec![1u8, 2, 3]]).encode();
    assert_eq!(
        pallet.on_local_trigger(Origin::Signed(BOB), known),
        Err(DispatchError::Other("No side effects provided"))
    );
    let unknown = (Some([4u8; 32]), BOB, Vec::<Vec<u8>>::new()).encode();
    assert_eq!(
        pallet.on_local_trigger(Origin::Signed(BOB), unknown),
        Err(DispatchError::Module(Error::SetupFailedUnknownXtx))
    );
    assert_eq!(
        pallet.on_local_trigger(Origin::Signed(BOB), vec![1, 2, 3]),
        Err(DispatchError::Module(Error::InsuranceBondNotRequired))
    );
    assert_eq!(pallet.stores, before);
}

fn encoded(sfx: &SideEffect) -> Vec<u8> {
    (
        sfx.target,
        sfx.prize,
        sfx.ordered_at,
        sfx.encoded_action.clone(),
        sfx.encoded_args.clone(),
        sfx.signature.clone(),
        sfx.enforce_executioner,
    )
        .encode()
}

#[test]
fn local_trigger_admits_the_bundle_that_it_carries() {
    let mut pallet = circuit();
    let sfx = side_effect(INTERNAL, 10, 1);
    let sfx_id = sfx.generate_id();
    let trigger = (None::<H256>, CHARLIE, vec![vec![7u8], encoded(&sfx)]).encode();
    let events = pallet.on_local_trigger(Origin::Signed(BOB), trigger).unwrap();
    let id = fresh_id(&BOB);
    assert_eq!(
        events,
        vec![
            Event::NewSideEffectsAvailable(BOB, id, vec![sfx.clone()], vec![sfx_id]),
            Event::XTransactionReadyForExec(id),
        ]
    );
    let xtx = pallet.stores.x_exec_signals.get(&id).unwrap();
    assert_eq!(xtx.status, CircuitStatus::Ready);
    assert_eq!(xtx.steps_cnt, (0, 1));
    assert_eq!(xtx.requester, BOB);
    assert_eq!(xtx.total_reward, Some(0));
    let steps = steps_of(&pallet, &id);
    assert_eq!(steps.len(), 1);
    assert_eq!(steps[0].len(), 1);
    assert_eq!(steps[0][0].input, sfx);
    assert_eq!(steps[0][0].security_lvl, SecurityLvl::Escrowed);
    assert_eq!(
        pallet.account_manager.charges,
        vec![Charge::Deposit(
            sfx_id,
            BOB,
            0,
            10,
            BenefitSource::TrafficRewards,
            CircuitRole::Requester
        )]
    );
    assert_eq!(pallet.stores.local_side_effect_to_xtx_id_links.get(&sfx_id), Some(&id));
    assert_eq!(pallet.stores.active_x_exec_signals_timing_links.get(&id), Some(&101));
}

#[test]
fn local_trigger_continues_an_execution_that_was_requested() {
    let mut pallet = circuit();
    pallet.load_local_state(&Origin::Signed(ALICE), None).unwrap();
    let id = fresh_id(&ALICE);
    assert_eq!(status_of(&pallet, &id), CircuitStatus::Requested);
    let sfx = side_effect(REMOTE, 4, 2);
    let sfx_id = sfx.generate_id();
    let trigger = (Some(id), CHARLIE, vec![encoded(&sfx)]).encode();
    let events = pallet.on_local_trigger(Origin::Signed(ALICE), trigger.clone()).unwrap();
    assert_eq!(
        events,
        vec![
            Event::NewSideEffectsAvailable(ALICE, id, vec![sfx.clone()], vec![sfx_id]),
            Event::XTransactionReadyForExec(id),
        ]
    );
    assert_eq!(status_of(&pallet, &id), CircuitStatus::Ready);
    let steps = steps_of(&pallet, &id);
    assert_eq!(steps.len(), 1);
    assert_eq!(steps[0][0].input, sfx);
    assert_eq!(pallet.stores.x_exec_signals.get(&id).unwrap().steps_cnt, (0, 1));

    let before = pallet.stores.clone();
    assert_eq!(
        pallet.on_local_trigger(Origin::Signed(ALICE), trigger.clone()),
        Err(DispatchError::Module(Error::ChargingTransferFailed))
    );
    assert_eq!(pallet.stores, before);

    pallet
        .confirm_side_effect(Origin::Signed(BOB), id, sfx, confirmation(BOB), None, None)
        .unwrap();
    assert_eq!(status_of(&pallet, &id), CircuitStatus::FinishedAllSteps);
    let before = pallet.stores.clone();
    assert_eq!(
        pallet.on_local_trigger(Origin::Signed(ALICE), trigger),
        Err(DispatchError::Module(Error::ApplyTriggeredWithUnexpectedStatus))
    );
    assert_eq!(pallet.stores, before);
}

#[test]
fn confirmation_waits_until_the_execution_is_ready() {
    let mut pallet = circuit();
    let sfx = insured(REMOTE, 3, 5, 3);
    let sfx_id = sfx.generate_id();
    let id = submit(&mut pallet, vec![sfx.clone()]);
    assert_eq!(status_of(&pallet, &id), CircuitStatus::PendingInsurance);
    let before = pallet.stores.clone();
    assert_eq!(
        pallet.confirm_side_effect(
            Origin::Signed(BOB),
            id,
            sfx.clone(),
            confirmation(BOB),
            None,
            None
        ),
        Err(DispatchError::Module(Error::SetupFailedIncorrectXtxStatus))
    );
    assert_eq!(
        pallet.execute_side_effects_with_xbi(Origin::Signed(BOB), id, sfx.clone(), 1, 1),
        Err(DispatchError::Module(Error::SetupFailedIncorrectXtxStatus))
    );
    assert_eq!(pallet.stores, before);
    assert!(pallet.escrow.transfers.is_empty());
    pallet.bond_insurance_deposit(Origin::Signed(BOB), id, sfx_id).unwrap();
    pallet
        .confirm_side_effect(Origin::Signed(BOB), id, sfx, confirmation(BOB), None, None)
        .unwrap();
    assert_eq!(status_of(&pallet, &id), CircuitStatus::FinishedAllSteps);
}

#[test]
fn triggers_that_are_not_served_say_so() {
    let pallet = circuit();
    assert_eq!(
        pallet.on_xcm_trigger(Origin::Signed(ALICE)),
        Err(DispatchError::Other(NOT_AVAILABLE))
    );
    assert_eq!(
        pallet.on_remote_gateway_trigger(Origin::Root),
        Err(DispatchError::Other("Trigger is not available"))
    );
    assert_eq!(pallet.account_id(), ESCROW);
}

#[test]
fn execution_over_the_bus_charges_the_executor() {
    let mut pallet = circuit();
    let sfx = side_effect(INTERNAL, 2, 1);
    let sfx_id = sfx.generate_id();
    let id = submit(&mut pallet, vec![sfx.clone()]);
    pallet.account_manager.charges.clear();
    let before = pallet.stores.clone();
    assert_eq!(
        pallet.execute_side_effects_with_xbi(Origin::Signed(BOB), id, sfx.clone(), 10, 20),
        Ok(())
    );
    assert_eq!(pallet.stores, before);
    assert_eq!(pallet.xbi_promise.orders, vec![sfx_id]);
    assert_eq!(pallet.account_manager.charges.len(), 1);
    match &pallet.account_manager.charges[0] {
        Charge::Deposit(charge_id, payer, fee, reward, source, role) => {
            assert_ne!(*charge_id, sfx_id);
            assert_eq!(*payer, BOB);
            assert_eq!(*fee, 30);
            assert_eq!(*reward, 0);
            assert_eq!(*source, BenefitSource::TrafficFees);
            assert_eq!(*role, CircuitRole::Executor);
        }
        other => panic!("unexpected charge {:?}", other),
    }
    pallet.xbi_portal.known.push(sfx_id);
    assert_eq!(
        pallet.execute_side_effects_with_xbi(Origin::Signed(BOB), id, sfx.clone(), 10, 20),
        Err(DispatchError::Module(Error::SideEffectIsAlreadyScheduledToExecuteOverXBI))
    );
    pallet.xbi_portal.known.clear();
    assert_eq!(
        pallet.execute_side_effects_with_xbi(Origin::Root, id, sfx.clone(), 10, 20),
        Err(DispatchError::BadOrigin)
    );
    assert_eq!(
        pallet.execute_side_effects_with_xbi(Origin::Signed(BOB), [4u8; 32], sfx, 10, 20),
        Err(DispatchError::Module(Error::SetupFailedUnknownXtx))
    );
}

#[test]
fn result_of_the_bus_is_confirmed() {
    let mut pallet = circuit();
    let first = side_effect(INTERNAL, 2, 1);
    let second = side_effect(INTERNAL, 2, 2);
    let ids = (first.generate_id(), second.generate_id());
    let id = submit(&mut pallet, vec![first, second]);
    pallet.account_manager.charges.clear();
    let before = pallet.stores.clone();
    assert_eq!(
        pallet.on_xbi_sfx_resolved(Origin::Root, ids.0),
        Err(DispatchError::Other("no check in"))
    );
    pallet.xbi_portal.check_in = Some(XBIInstr::Transfer { dest: CHARLIE, value: 12 });
    assert_eq!(
        pallet.on_xbi_sfx_resolved(Origin::Root, ids.0),
        Err(DispatchError::Module(Error::FailedToExitXBIPortal))
    );
    pallet.xbi_portal.origin = Some(BOB);
    pallet.xbi_portal.check_in = Some(XBIInstr::Unknown { identifier: 1, params: vec![] });
    assert_eq!(
        pallet.on_xbi_sfx_resolved(Origin::Root, ids.0),
        Err(DispatchError::Module(Error::FailedToExitXBIPortal))
    );
    pallet.xbi_portal.check_in = Some(XBIInstr::Transfer { dest: CHARLIE, value: 12 });
    assert_eq!(
        pallet.on_xbi_sfx_resolved(Origin::Root, [4u8; 32]),
        Err(DispatchError::Module(Error::LocalSideEffectExecutionNotApplicable))
    );
    pallet.portal.accepts = false;
    assert_eq!(
        pallet.on_xbi_sfx_resolved(Origin::Root, ids.0),
        Err(DispatchError::Module(Error::XBIExitFailedOnSFXConfirmation))
    );
    assert_eq!(pallet.stores, before);
    pallet.portal.accepts = true;

    // the confirmation is written: the side effect is confirmed in the stores
    let events = pallet.on_xbi_sfx_resolved(Origin::Root, ids.0).unwrap();
    let steps = steps_of(&pallet, &id);
    assert_eq!(steps[0][0].confirmed, Some(confirmation(BOB)));
    assert_eq!(steps[0][1].confirmed, None);
    assert_eq!(
        events,
        vec![
            Event::Transfer(ESCROW, BOB, CHARLIE, 12),
            Event::SideEffectsConfirmed(id, steps),
        ]
    );
    assert_eq!(status_of(&pallet, &id), CircuitStatus::PendingExecution);
    assert!(pallet.account_manager.charges.is_empty());
    // the same result does not confirm a second time
    assert_eq!(
        pallet.on_xbi_sfx_resolved(Origin::Root, ids.0),
        Err(DispatchError::Module(Error::LocalSideEffectExecutionNotApplicable))
    );
    // the last confirmation of the step advances the cursor and settles the step
    pallet.xbi_portal.check_in = Some(XBIInstr::CallNative { payload: vec![1, 2] });
    let events = pallet.on_xbi_sfx_resolved(Origin::Root, ids.1).unwrap();
    assert_eq!(events[0], Event::CallNative(ESCROW, vec![1, 2]));
    assert_eq!(events[1], Event::XTransactionXtxFinishedExecAllSteps(id));
    let xtx = pallet.stores.x_exec_signals.get(&id).unwrap();
    assert_eq!(xtx.status, CircuitStatus::FinishedAllSteps);
    assert_eq!(xtx.steps_cnt, (1, 1));
    assert!(!pallet.stores.active_x_exec_signals_timing_links.contains_key(&id));
    assert_eq!(
        pallet.account_manager.charges,
        vec![
            Charge::Finalize(ids.0, Outcome::Commit, Some(BOB), Some(1)),
            Charge::Finalize(ids.1, Outcome::Commit, Some(BOB), Some(1)),
        ]
    );
    assert_eq!(
        pallet.on_xbi_sfx_resolved(Origin::Root, ids.1),
        Err(DispatchError::Module(Error::ApplyTriggeredWithUnexpectedStatus))
    );
}

#[test]
fn side_effects_that_did_not_convert_are_dropped() {
    let mut enforced = side_effect(REMOTE, 2, 2);
    enforced.enforce_executioner = Some(BOB);
    let kept = Pallet::<Runtime>::convert_side_effects(vec![
        vec![1, 2, 3],
        encoded(&side_effect(REMOTE, 1, 1)),
        vec![],
        encoded(&enforced),
    ]);
    assert_eq!(kept, Ok(vec![side_effect(REMOTE, 1, 1), enforced]));
    assert_eq!(
        Pallet::<Runtime>::convert_side_effects(vec![vec![9], vec![]]),
        Err("No side effects provided")
    );
    assert_eq!(Pallet::<Runtime>::convert_side_effects(vec![]), Err("No side effects provided"));
    assert_eq!(
        Pallet::<Runtime>::exec_in_xtx_ctx([0u8; 32], LocalState::new(), vec![], (0, 0)),
        Ok(vec![])
    );
}
