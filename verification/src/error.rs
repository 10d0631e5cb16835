//! Errors of the Circuit.
use vstd::prelude::*;

verus! {

/// What the Circuit reports when it refuses a call.
#[derive(Clone, Copy, Debug, PartialEq, Eq, Structural)]
pub enum Error {
    UpdateXtxTriggeredWithUnexpectedStatus,
    ApplyTriggeredWithUnexpectedStatus,
    RequesterNotEnoughBalance,
    ContractXtxKilledRunOutOfFunds,
    ChargingTransferFailed,
    FinalizeSquareUpFailed,
    CriticalStateSquareUpCalledToFinishWithoutFsxConfirmed,
    RewardTransferFailed,
    RefundTransferFailed,
    SideEffectsValidationFailed,
    InsuranceBondNotRequired,
    InsuranceBondTooLow,
    InsuranceBondAlreadyDeposited,
    SetupFailed,
    SetupFailedXtxNotFound,
    SetupFailedXtxStorageArtifactsNotFound,
    SetupFailedIncorrectXtxStatus,
    EnactSideEffectsCanOnlyBeCalledWithMin1StepFinished,
    FatalXtxTimeoutXtxIdNotMatched,
    RelayEscrowedFailedNothingToConfirm,
    FatalCommitSideEffectWithoutConfirmationAttempt,
    FatalErroredCommitSideEffectConfirmationAttempt,
    FatalErroredRevertSideEffectConfirmationAttempt,
    SetupFailedUnknownXtx,
    FailedToHardenFullSideEffect,
    SetupFailedDuplicatedXtx,
    SetupFailedEmptyXtx,
    ApplyFailed,
    DeterminedForbiddenXtxStatus,
    SideEffectIsAlreadyScheduledToExecuteOverXBI,
    LocalSideEffectExecutionNotApplicable,
    LocalExecutionUnauthorized,
    FailedToConvertSFX2XBI,
    FailedToCheckInOverXBI,
    FailedToCreateXBIMetadataDueToWrongAccountConversion,
    FailedToConvertXBIResult2SFXConfirmation,
    FailedToEnterXBIPortal,
    FailedToExitXBIPortal,
    XBIExitFailedOnSFXConfirmation,
    UnsupportedRole,
    InvalidLocalTrigger,
    SignalQueueFull,
}

/// What an entry point reports when it fails.
#[derive(Clone, Copy, Debug, PartialEq, Eq)]
pub enum DispatchError {
    /// The origin may not make this call.
    BadOrigin,
    /// The Circuit refused the call.
    Module(Error),
    /// A collaborator or a validation rule refused it, with its reason.
    Other(&'static str),
}

/// Reason given for a bundle without side effects.
pub const NO_SIDE_EFFECTS: &'static str = "No side effects provided";

/// Reason given when the prize of a side effect differs from the reward of its insurance.
pub const PRIZE_MISMATCH: &'static str =
    "Side_effect prize must be equal to reward of Optional Insurance";

/// Reason given when the portal knows no finalized height of the target.
pub const HEIGHT_NOT_FOUND: &'static str = "target height not found";

/// Reason given when the current step holds nothing to confirm.
pub const EMPTY_STEP: &'static str = "Xtx has an empty single step.";

/// Reason given for a second confirmation of one side effect.
pub const ALREADY_CONFIRMED: &'static str = "Side Effect already confirmed";

/// Reason given when the current step does not hold the side effect.
pub const NOT_IN_STEP: &'static str =
    "Unable to find matching Side Effect in given Xtx to confirm";

/// Reason given when the portal rejects the inclusion proof.
pub const CONFIRMATION_FAILED: &'static str = "SideEffect confirmation failed!";

/// Reason given when the confirmed parameters do not match the side effect.
pub const EXECUTION_UNCONFIRMED: &'static str = "Execution can't be confirmed.";

} // verus!
