//! The interfaces of the collaborators that the Circuit consumes: the name
//! service, the portal, the account manager, the escrow, the side effects
//! protocol and the asynchronous execution bus.
//!
//! The Circuit is generic over them. No method promises anything of its result:
//! what the Circuit does is proved for whatever a collaborator answers.
use crate::error::DispatchError;
use crate::events::Event;
use crate::primitives::{
    AccountId, Balance, BenefitSource, CircuitRole, ConfirmedSideEffect, GatewayType,
    LocalState, Outcome, SecurityLvl, SideEffect, SideEffectId, TargetId, H256,
};
use crate::xbi::{XBICheckIn, XBICheckOut, XBIFormat, XBIMetadata, XBIStatus};
use vstd::prelude::*;

verus! {

/// The name service: what is known of each gateway.
pub trait Xdns {
    /// The encoded ABI of a gateway; an error for a gateway that is not known.
    fn get_abi(&self, target: TargetId) -> Result<Vec<u8>, &'static str>;

    /// The operations that a gateway allows.
    fn allowed_side_effects(&self, target: &TargetId) -> Vec<[u8; 4]>;

    /// The kind of a gateway.
    fn get_gateway_type_unsafe(&self, target: &TargetId) -> GatewayType;

    /// The parachain of a gateway.
    fn get_gateway_para_id(&self, target: &TargetId) -> Result<u32, DispatchError>;

    /// The encoded interface of an operation.
    fn fetch_side_effect_interface(&self, id: [u8; 4]) -> Result<Vec<u8>, &'static str>;

    /// The encoded security coordinates of a gateway.
    fn get_gateway_security_coordinates(&self, target: &TargetId) -> Result<
        Vec<u8>,
        &'static str,
    >;
}

/// The portal: what is finalized on each gateway.
pub trait Portal {
    /// The last finalized height of a gateway, if the portal follows it.
    fn get_latest_finalized_height(&self, target: TargetId) -> Result<
        Option<Vec<u8>>,
        &'static str,
    >;

    /// Checks that the inclusion data lies on the gateway at or after the given
    /// height and decodes it into the parameters of the operation and their source.
    fn confirm_and_decode_payload_params(
        &self,
        target: TargetId,
        submission_target_height: Vec<u8>,
        inclusion_data: Vec<u8>,
        side_effect_id: [u8; 4],
    ) -> Result<(Vec<Vec<u8>>, Vec<u8>), &'static str>;
}

/// The account manager: charges that are deposited first and settled later.
pub trait AccountManager {
    /// Opens a charge.
    fn deposit(
        &mut self,
        charge_id: H256,
        payer: &AccountId,
        charge_fee: Balance,
        offered_reward: Balance,
        source: BenefitSource,
        role: CircuitRole,
        recipient: Option<AccountId>,
    ) -> Result<(), DispatchError>;

    /// Settles a charge.
    fn finalize(
        &mut self,
        charge_id: H256,
        outcome: Outcome,
        maybe_recipient: Option<AccountId>,
        maybe_actual_fees: Option<Balance>,
    ) -> Result<(), DispatchError>;

    /// Settles a charge if there is one, and tells whether there was.
    fn try_finalize(
        &mut self,
        charge_id: H256,
        outcome: Outcome,
        maybe_recipient: Option<AccountId>,
        maybe_actual_fees: Option<Balance>,
    ) -> bool;
}

/// The escrow: the currency in which insurance is bonded.
pub trait EscrowTrait {
    /// Moves an amount from one account to another.
    fn transfer(&mut self, source: &AccountId, dest: &AccountId, value: Balance) -> Result<
        (),
        DispatchError,
    >;
}

/// The side effects protocol: the rules that the arguments of a side effect
/// and the parameters of its confirmation obey.
pub trait SideEffectsProtocol {
    /// Takes note of a gateway and of the operations that it allows.
    fn notice_gateway(&mut self, target: TargetId, allowed_side_effects: Vec<[u8; 4]>);

    /// Checks the arguments of a side effect against the ABI of its gateway and
    /// records in the local state what binds them to other side effects.
    fn validate_args(
        &mut self,
        side_effect: &SideEffect,
        gateway_abi: &Vec<u8>,
        local_state: &mut LocalState,
    ) -> Result<(), &'static str>;

    /// The insurance and the reward that a side effect declares, if it declares any.
    fn check_if_insurance_required(
        &self,
        side_effect: &SideEffect,
        local_state: &mut LocalState,
    ) -> Result<Option<[Balance; 2]>, &'static str>;

    /// Checks the decoded parameters of a confirmation against the side effect.
    fn confirmation_plug(
        &self,
        side_effect_interface: &Vec<u8>,
        params: Vec<Vec<u8>>,
        source: Vec<u8>,
        local_state: &LocalState,
        side_effect_id: Option<Vec<u8>>,
        security_lvl: SecurityLvl,
        security_coordinates: Vec<u8>,
    ) -> Result<(), &'static str>;
}

/// The asynchronous execution bus, as far as the Circuit asks it.
pub trait XBIPortal {
    /// What the bus knows of an order.
    fn get_status(&self, xbi_id: SideEffectId) -> XBIStatus;

    /// The order as it left.
    fn get_check_in(&self, xbi_id: SideEffectId) -> Result<XBICheckIn, DispatchError>;

    /// The result as it came back.
    fn get_check_out(&self, xbi_id: SideEffectId) -> Result<XBICheckOut, DispatchError>;

    /// The order that carries a side effect.
    fn sfx_2_xbi(&self, side_effect: &SideEffect, metadata: XBIMetadata) -> Result<
        XBIFormat,
        DispatchError,
    >;

    /// The encoding of an order.
    fn encode(&self, xbi: &XBIFormat) -> Vec<u8>;

    /// The most that an order may cost, in the currency of the Circuit.
    fn total_max_costs_in_local_currency(&self, metadata: &XBIMetadata) -> Result<
        Balance,
        DispatchError,
    >;

    /// The confirmation that the result of an order amounts to.
    fn xbi_result_2_sfx_confirmation(
        &self,
        xbi: &XBIFormat,
        exit_event: &Event,
        executor: AccountId,
    ) -> Result<ConfirmedSideEffect, DispatchError>;
}

/// The promise of the bus: an order now, and a call once its result is there.
pub trait XBIPromise {
    /// Sends an order and asks the bus to come back with the result for the
    /// side effect `sfx_id`.
    fn register(&mut self, xbi: XBIFormat, sfx_id: SideEffectId) -> Result<(), DispatchError>;
}

/// The collaborators of one Circuit.
pub trait Config {
    /// The name service.
    type Xdns: Xdns;

    /// The portal.
    type Portal: Portal;

    /// The account manager.
    type AccountManager: AccountManager;

    /// The escrow.
    type Escrowed: EscrowTrait;

    /// The side effects protocol.
    type Protocol: SideEffectsProtocol;

    /// The asynchronous execution bus.
    type XBIPortal: XBIPortal;

    /// The promise of the bus.
    type XBIPromise: XBIPromise;
}

} // verus!
