//! The Circuit: the lifecycle engine of cross-chain execution transactions.
//!
//! A requester submits a bundle of side effects, operations to be executed on
//! other chains. The Circuit validates the bundle, lays it out in steps, takes the
//! insurance bonds of executors, accepts the confirmations of the executions,
//! applies timeouts and signals, and settles. Every operation runs through the
//! same phases: setup, validate, settle, update, apply, emit.
//!
//! The collaborators of the Circuit are interfaces ([`interfaces`]); what the
//! Circuit itself decides is verified for whatever they answer.
pub mod engine;
pub mod error;
pub mod events;
pub mod exit;
pub mod hooks;
pub mod identity;
pub mod interfaces;
pub mod invariants;
pub mod local;
pub mod optimistic;
pub mod pallet;
pub mod primitives;
pub mod registry;
pub mod signal;
pub mod status;
pub mod storage;
pub mod table;
pub mod validator;
pub mod weights;
pub mod xbi;
pub mod xtx;

pub use crate::error::{DispatchError, Error};
pub use crate::events::Event;
pub use crate::interfaces::Config;
pub use crate::pallet::{get_xtx_status, Constants, Pallet, Payload};
pub use crate::registry::{ContractsRegistry, RegistryContract};
pub use crate::status::CircuitStatus;
pub use crate::weights::{SubstrateWeight, WeightInfo};
