//! Control signals: the messages by which a contract asks the Circuit to finish
//! or to break an execution.
use crate::primitives::H256;
use vstd::prelude::*;

verus! {

/// Why a contract asks for a kill.
#[derive(Clone, Copy, Debug, PartialEq, Eq, Structural)]
pub enum KillReason {
    /// Some undefined behaviour.
    Unhandled,
    /// A value could not be encoded or decoded.
    Codec,
    /// A timeout of the contract tripped.
    Timeout,
}

/// What a signal asks for.
#[derive(Clone, Copy, Debug, PartialEq, Eq, Structural)]
pub enum SignalKind {
    /// Finish the execution in an optimistic manner.
    Complete,
    /// Break the execution as soon as possible.
    Kill(KillReason),
}

/// A signal for one execution.
#[derive(Clone, Copy, Debug, PartialEq, Eq)]
pub struct ExecutionSignal {
    /// The step that the signal is for.
    pub step: u32,
    /// What it asks for.
    pub kind: SignalKind,
    /// The execution that it is for.
    pub execution_id: H256,
}

impl ExecutionSignal {
    /// A signal for the execution `execution_id`; the step defaults to the first.
    pub fn new(execution_id: &H256, step: Option<u32>, kind: SignalKind) -> (r: Self)
        ensures
            r.execution_id == *execution_id,
            r.kind == kind,
            r.step == (match step {
                Some(s) => s,
                None => 0u32,
            }),
    {
        let step = match step {
            Some(s) => s,
            None => 0,
        };
        ExecutionSignal { step, kind, execution_id: *execution_id }
    }
}

} // verus!
