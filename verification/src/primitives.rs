//! Plain data of the Circuit: identifiers, side effects, confirmations and the
//! small enumerations that the host interfaces exchange with the engine.
//!
//! Every type that owns heap data has a deep view, a ghost value made of `Seq`s,
//! and the contracts of the crate are stated over those views.
use vstd::prelude::*;

verus! {

/// A 32-byte content hash.
pub type H256 = [u8; 32];

/// An account of the host chain.
pub type AccountId = [u8; 32];

/// Identifier of an execution transaction.
pub type XtxId = H256;

/// Identifier of an execution transaction, as the stores name it.
pub type XExecSignalId = H256;

/// Identifier of a side effect: the hash of its canonical encoding.
pub type SideEffectId = H256;

/// Identifier of a gateway (a remote chain).
pub type TargetId = [u8; 4];

/// Amounts of the escrow currency.
pub type Balance = u128;

/// Block heights of the host chain.
pub type BlockNumber = u32;

/// Security level of a side effect.
#[derive(Clone, Copy, Debug, PartialEq, Eq, Structural)]
pub enum SecurityLvl {
    /// Unbonded; runs alone in a step of its own.
    Dirty,
    /// Bonded by an executor's insurance.
    Optimistic,
    /// Executed by a trusted internal gateway.
    Escrowed,
}

impl SecurityLvl {
    /// Position in the execution order: escrowed first, optimistic next, dirty last.
    pub open spec fn order(self) -> nat {
        match self {
            SecurityLvl::Escrowed => 0,
            SecurityLvl::Optimistic => 1,
            SecurityLvl::Dirty => 2,
        }
    }
}

/// Kind of a gateway, as the name service reports it.
#[derive(Clone, Copy, Debug, PartialEq, Eq, Structural)]
pub enum GatewayType {
    ProgrammableInternal(u32),
    ProgrammableExternal(u32),
    TxOnly(u32),
    OnCircuit(u32),
}

/// Role in which an account approaches the Circuit.
#[derive(Clone, Copy, Debug, PartialEq, Eq, Structural)]
pub enum CircuitRole {
    Ambassador,
    Executor,
    Attester,
    Staker,
    Collator,
    ContractAuthor,
    Relayer,
    Requester,
    Local,
}

/// What a charge of the account manager pays for.
#[derive(Clone, Copy, Debug, PartialEq, Eq, Structural)]
pub enum BenefitSource {
    BootstrapPool,
    Inflation,
    TrafficFees,
    TrafficRewards,
    Unsettled,
}

/// How a charge of the account manager is closed.
#[derive(Clone, Copy, Debug, PartialEq, Eq, Structural)]
pub enum Outcome {
    UnexpectedFailure,
    Revert,
    Commit,
}

/// What a confirmation reports of the remote execution.
#[derive(Clone, Copy, Debug, PartialEq, Eq, Structural)]
pub enum ConfirmationOutcome {
    Success,
    MisbehaviourMalformedValues,
    TimedOut,
}

/// Who sends a call.
#[derive(Clone, Copy, Debug, PartialEq, Eq)]
pub enum Origin {
    /// The chain itself.
    Root,
    /// An account that signed the call.
    Signed(AccountId),
    /// Nobody: an unsigned call.
    Unsigned,
}

/// Copies a byte string.
pub fn clone_bytes(bytes: &Vec<u8>) -> (r: Vec<u8>)
    ensures
        r@ == bytes@,
{
    bytes.clone()
}

/// Copies a list of byte strings.
pub fn clone_bytes_list(list: &Vec<Vec<u8>>) -> (r: Vec<Vec<u8>>)
    ensures
        r.deep_view() == list.deep_view(),
{
    let mut out: Vec<Vec<u8>> = Vec::new();
    let mut i: usize = 0;
    while i < list.len()
        invariant
            i <= list.len(),
            out@.len() == i,
            forall|k: int| 0 <= k < i ==> out@[k]@ == list@[k]@,
        decreases list.len() - i,
    {
        out.push(clone_bytes(&list[i]));
        i += 1;
    }
    assert(out.deep_view() =~= list.deep_view());
    out
}

/// Copies an optional byte string.
pub fn clone_opt_bytes(bytes: &Option<Vec<u8>>) -> (r: Option<Vec<u8>>)
    ensures
        r.deep_view() == bytes.deep_view(),
{
    match bytes {
        Some(b) => Some(clone_bytes(b)),
        None => None,
    }
}

/// A user-supplied operation on a remote chain.
#[derive(Debug, PartialEq, Eq)]
pub struct SideEffect {
    /// Gateway on which it runs.
    pub target: TargetId,
    /// Reward offered for its execution.
    pub prize: Balance,
    /// Block at which it was ordered.
    pub ordered_at: BlockNumber,
    /// Encoded action; its first four bytes name the operation.
    pub encoded_action: Vec<u8>,
    /// Encoded arguments.
    pub encoded_args: Vec<Vec<u8>>,
    /// Signature of the requester.
    pub signature: Vec<u8>,
    /// Executor that must run it, if any.
    pub enforce_executioner: Option<AccountId>,
}

/// Deep view of a [`SideEffect`].
pub struct SideEffectView {
    pub target: TargetId,
    pub prize: Balance,
    pub ordered_at: BlockNumber,
    pub encoded_action: Seq<u8>,
    pub encoded_args: Seq<Seq<u8>>,
    pub signature: Seq<u8>,
    pub enforce_executioner: Option<AccountId>,
}

impl DeepView for SideEffect {
    type V = SideEffectView;

    open spec fn deep_view(&self) -> SideEffectView {
        SideEffectView {
            target: self.target,
            prize: self.prize,
            ordered_at: self.ordered_at,
            encoded_action: self.encoded_action@,
            encoded_args: self.encoded_args.deep_view(),
            signature: self.signature@,
            enforce_executioner: self.enforce_executioner,
        }
    }
}

impl Clone for SideEffect {
    fn clone(&self) -> (r: Self)
        ensures
            r.deep_view() == self.deep_view(),
    {
        SideEffect {
            target: self.target,
            prize: self.prize,
            ordered_at: self.ordered_at,
            encoded_action: clone_bytes(&self.encoded_action),
            encoded_args: clone_bytes_list(&self.encoded_args),
            signature: clone_bytes(&self.signature),
            enforce_executioner: self.enforce_executioner,
        }
    }
}

/// Proof that a side effect ran on its target.
#[derive(Debug, PartialEq, Eq)]
pub struct ConfirmedSideEffect {
    /// Failure reported by the executor, if any.
    pub err: Option<ConfirmationOutcome>,
    /// Output of the execution, if any.
    pub output: Option<Vec<u8>>,
    /// Encoded inclusion data checked by the portal.
    pub inclusion_data: Vec<u8>,
    /// Account that executed the side effect.
    pub executioner: AccountId,
    /// Block at which the confirmation was received.
    pub received_at: BlockNumber,
    /// Cost of the execution, if the executor claims one.
    pub cost: Option<Balance>,
}

/// Deep view of a [`ConfirmedSideEffect`].
pub struct ConfirmedSideEffectView {
    pub err: Option<ConfirmationOutcome>,
    pub output: Option<Seq<u8>>,
    pub inclusion_data: Seq<u8>,
    pub executioner: AccountId,
    pub received_at: BlockNumber,
    pub cost: Option<Balance>,
}

impl DeepView for ConfirmedSideEffect {
    type V = ConfirmedSideEffectView;

    open spec fn deep_view(&self) -> ConfirmedSideEffectView {
        ConfirmedSideEffectView {
            err: self.err,
            output: self.output.deep_view(),
            inclusion_data: self.inclusion_data@,
            executioner: self.executioner,
            received_at: self.received_at,
            cost: self.cost,
        }
    }
}

impl Clone for ConfirmedSideEffect {
    fn clone(&self) -> (r: Self)
        ensures
            r.deep_view() == self.deep_view(),
    {
        ConfirmedSideEffect {
            err: self.err,
            output: clone_opt_bytes(&self.output),
            inclusion_data: clone_bytes(&self.inclusion_data),
            executioner: self.executioner,
            received_at: self.received_at,
            cost: self.cost,
        }
    }
}

/// A side effect with what the Circuit knows of it.
#[derive(Debug, PartialEq, Eq)]
pub struct FullSideEffect {
    /// The side effect as submitted.
    pub input: SideEffect,
    /// Its confirmation, filled once.
    pub confirmed: Option<ConfirmedSideEffect>,
    /// Its security level.
    pub security_lvl: SecurityLvl,
    /// Last finalized height of the target at admission.
    pub submission_target_height: Vec<u8>,
}

/// Deep view of a [`FullSideEffect`].
pub struct FullSideEffectView {
    pub input: SideEffectView,
    pub confirmed: Option<ConfirmedSideEffectView>,
    pub security_lvl: SecurityLvl,
    pub submission_target_height: Seq<u8>,
}

impl DeepView for FullSideEffect {
    type V = FullSideEffectView;

    open spec fn deep_view(&self) -> FullSideEffectView {
        FullSideEffectView {
            input: self.input.deep_view(),
            confirmed: self.confirmed.deep_view(),
            security_lvl: self.security_lvl,
            submission_target_height: self.submission_target_height@,
        }
    }
}

impl Clone for FullSideEffect {
    fn clone(&self) -> (r: Self)
        ensures
            r.deep_view() == self.deep_view(),
    {
        let confirmed = match &self.confirmed {
            Some(c) => Some(c.clone()),
            None => None,
        };
        FullSideEffect {
            input: self.input.clone(),
            confirmed,
            security_lvl: self.security_lvl,
            submission_target_height: clone_bytes(&self.submission_target_height),
        }
    }
}

/// A step in its deep view.
pub type StepView = Seq<FullSideEffectView>;

/// A step vector in its deep view.
pub type StepsView = Seq<Seq<FullSideEffectView>>;

/// Copies a list of side effects.
pub fn clone_side_effects(list: &Vec<SideEffect>) -> (r: Vec<SideEffect>)
    ensures
        r.deep_view() == list.deep_view(),
{
    let mut out: Vec<SideEffect> = Vec::new();
    let mut i: usize = 0;
    while i < list.len()
        invariant
            i <= list.len(),
            out@.len() == i,
            forall|k: int| 0 <= k < i ==> out@[k].deep_view() == list@[k].deep_view(),
        decreases list.len() - i,
    {
        out.push(list[i].clone());
        i += 1;
    }
    assert(out.deep_view() =~= list.deep_view());
    out
}

/// Copies a step.
pub fn clone_step(step: &Vec<FullSideEffect>) -> (r: Vec<FullSideEffect>)
    ensures
        r.deep_view() == step.deep_view(),
{
    let mut out: Vec<FullSideEffect> = Vec::new();
    let mut i: usize = 0;
    while i < step.len()
        invariant
            i <= step.len(),
            out@.len() == i,
            forall|k: int| 0 <= k < i ==> out@[k].deep_view() == step@[k].deep_view(),
        decreases step.len() - i,
    {
        out.push(step[i].clone());
        i += 1;
    }
    assert(out.deep_view() =~= step.deep_view());
    out
}

/// Copies a step vector.
pub fn clone_steps(steps: &Vec<Vec<FullSideEffect>>) -> (r: Vec<Vec<FullSideEffect>>)
    ensures
        r.deep_view() == steps.deep_view(),
{
    let mut out: Vec<Vec<FullSideEffect>> = Vec::new();
    let mut i: usize = 0;
    while i < steps.len()
        invariant
            i <= steps.len(),
            out@.len() == i,
            forall|k: int| 0 <= k < i ==> out@[k].deep_view() == steps@[k].deep_view(),
        decreases steps.len() - i,
    {
        out.push(clone_step(&steps[i]));
        i += 1;
    }
    assert(out.deep_view() =~= steps.deep_view());
    out
}

/// Scratchpad carried through validation: the bindings between the arguments of
/// the side effects of one execution transaction. The engine never reads it.
#[derive(Debug, PartialEq, Eq)]
pub struct LocalState {
    pub state: Vec<(H256, Vec<u8>)>,
}

impl DeepView for LocalState {
    type V = Seq<(H256, Seq<u8>)>;

    open spec fn deep_view(&self) -> Seq<(H256, Seq<u8>)> {
        Seq::new(self.state@.len(), |i: int| (self.state@[i].0, self.state@[i].1@))
    }
}

impl LocalState {
    /// An empty scratchpad.
    pub fn new() -> (r: Self)
        ensures
            r.deep_view() == Seq::<(H256, Seq<u8>)>::empty(),
    {
        let r = LocalState { state: Vec::new() };
        assert(r.deep_view() =~= Seq::<(H256, Seq<u8>)>::empty());
        r
    }
}

impl Clone for LocalState {
    fn clone(&self) -> (r: Self)
        ensures
            r.deep_view() == self.deep_view(),
    {
        let mut state: Vec<(H256, Vec<u8>)> = Vec::new();
        let mut i: usize = 0;
        while i < self.state.len()
            invariant
                i <= self.state.len(),
                state@.len() == i,
                forall|k: int|
                    0 <= k < i ==> state@[k].0 == self.state@[k].0 && state@[k].1@
                        == self.state@[k].1@,
            decreases self.state.len() - i,
        {
            state.push((self.state[i].0, clone_bytes(&self.state[i].1)));
            i += 1;
        }
        let r = LocalState { state };
        assert(r.deep_view() =~= self.deep_view());
        r
    }
}

/// Tells whether two hashes are the same.
pub fn same_hash(a: &H256, b: &H256) -> (r: bool)
    ensures
        r == (*a == *b),
{
    let mut i: usize = 0;
    while i < 32
        invariant
            i <= 32,
            forall|k: int| 0 <= k < i ==> a@[k] == b@[k],
        decreases 32 - i,
    {
        if a[i] != b[i] {
            return false;
        }
        i += 1;
    }
    assert(a@ =~= b@);
    assert(*a =~= *b);
    true
}

/// Tells whether two gateway identifiers are the same.
pub fn same_target(a: &TargetId, b: &TargetId) -> (r: bool)
    ensures
        r == (*a == *b),
{
    let r = a[0] == b[0] && a[1] == b[1] && a[2] == b[2] && a[3] == b[3];
    assert(r ==> a@ =~= b@);
    assert(r ==> *a =~= *b);
    r
}

} // verus!
