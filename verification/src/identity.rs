//! Identity and hashing: content-addressed identifiers of execution transactions
//! and side effects.
//!
//! An identifier is the Blake2-256 hash of a canonical byte string. The hash and the
//! SCALE encoding are computed outside this crate; the functions that call them
//! are the only items here whose contracts are taken on trust.
use crate::primitives::{
    AccountId, BlockNumber, SideEffect, SideEffectId, SideEffectView, StepView, StepsView, XtxId,
    H256,
};
use vstd::prelude::*;

verus! {

/// The Blake2-256 digest of a byte string.
pub uninterp spec fn blake2_256_of(data: Seq<u8>) -> H256;

/// The SCALE encoding of a side effect: that of the tuple of its fields, in the
/// order target, prize, ordered_at, encoded_action, encoded_args, signature,
/// enforce_executioner.
pub uninterp spec fn scale_encoding(sfx: SideEffectView) -> Seq<u8>;

/// The SCALE encoding of a byte string: its length in the compact form, then its bytes.
pub uninterp spec fn scale_encoded_bytes(data: Seq<u8>) -> Seq<u8>;

/// The side effect can be encoded: SCALE writes the length of a byte string and
/// of a list in a prefix that holds no more than `u32::MAX`.
pub open spec fn encodable(sfx: SideEffectView) -> bool {
    &&& sfx.encoded_action.len() <= u32::MAX
    &&& sfx.signature.len() <= u32::MAX
    &&& sfx.encoded_args.len() <= u32::MAX
    &&& forall|i: int|
        0 <= i < sfx.encoded_args.len() ==> (#[trigger] sfx.encoded_args[i]).len() <= u32::MAX
}

/// Every side effect of the bundle can be encoded.
pub open spec fn bundle_encodable(bundle: Seq<SideEffectView>) -> bool {
    forall|i: int| 0 <= i < bundle.len() ==> encodable(#[trigger] bundle[i])
}

/// Every side effect of the step can be encoded.
pub open spec fn step_encodable(step: StepView) -> bool {
    forall|j: int| 0 <= j < step.len() ==> encodable((#[trigger] step[j]).input)
}

/// Every side effect of the steps can be encoded.
pub open spec fn steps_encodable(steps: StepsView) -> bool {
    forall|s: int| 0 <= s < steps.len() ==> step_encodable(#[trigger] steps[s])
}

/// Calls `sp_runtime::traits::BlakeTwo256::hash`, which hashes a byte string with
/// Blake2-256 and is a function of that string alone. The contract claims only
/// that the result is that digest, under the name `blake2_256_of`.
#[verifier::external_body]
pub(crate) fn blake2_256(data: &Vec<u8>) -> (r: H256)
    ensures
        r == blake2_256_of(data@),
{
    <sp_runtime::traits::BlakeTwo256 as sp_runtime::traits::Hash>::hash(data.as_slice()).0
}

/// Calls `parity_scale_codec::Encode::encode` on the tuple of the fields of a side
/// effect. The encoding depends on the fields alone; the contract claims only that
/// the result is that encoding, under the name `scale_encoding`. The call cannot
/// write the length of a byte string or list above `u32::MAX`, so such a side
/// effect is left out.
#[verifier::external_body]
pub(crate) fn encode_side_effect(sfx: &SideEffect) -> (r: Vec<u8>)
    requires
        encodable(sfx.deep_view()),
    ensures
        r@ == scale_encoding(sfx.deep_view()),
{
    parity_scale_codec::Encode::encode(
        &(
            &sfx.target,
            &sfx.prize,
            &sfx.ordered_at,
            &sfx.encoded_action,
            &sfx.encoded_args,
            &sfx.signature,
            &sfx.enforce_executioner,
        ),
    )
}

/// Calls `parity_scale_codec::Encode::encode` on a byte string. The encoding
/// depends on the bytes alone; the contract claims only that the result is that
/// encoding, under the name `scale_encoded_bytes`. The call cannot write a length
/// above `u32::MAX`, so such a byte string is left out.
#[verifier::external_body]
pub(crate) fn encode_bytes(data: &Vec<u8>) -> (r: Vec<u8>)
    requires
        data@.len() <= u32::MAX,
    ensures
        r@ == scale_encoded_bytes(data@),
{
    parity_scale_codec::Encode::encode(data)
}

/// Identifier of a side effect: the digest of its encoding.
pub open spec fn side_effect_id(sfx: SideEffectView) -> SideEffectId {
    blake2_256_of(scale_encoding(sfx))
}

/// The four bytes of a block number, most significant first.
pub open spec fn be_bytes(n: u32) -> Seq<u8> {
    seq![
        (n / 0x1000000) as u8,
        ((n / 0x10000) % 0x100) as u8,
        ((n / 0x100) % 0x100) as u8,
        (n % 0x100) as u8,
    ]
}

/// A hash followed by the big-endian bytes of a number.
pub open spec fn hash_with_number(hash: H256, n: u32) -> Seq<u8> {
    hash@ + be_bytes(n)
}

/// Identifier of the execution transaction that `requester` opens at block `at`.
pub open spec fn xtx_id_of(requester: AccountId, at: BlockNumber) -> XtxId {
    blake2_256_of(hash_with_number(requester, at))
}

/// Identifier of a side effect within a step: the step's index is mixed in, so
/// that one side effect repeated in two steps has two identifiers.
pub open spec fn step_side_effect_id(sfx_id: SideEffectId, step: u32) -> H256 {
    blake2_256_of(hash_with_number(sfx_id, step))
}

/// Identifier of a contract of the registry: the digest of the encoding of its
/// code text followed by its bytecode.
pub open spec fn contract_id(code_txt: Seq<u8>, bytes: Seq<u8>) -> H256 {
    blake2_256_of(scale_encoded_bytes(code_txt + bytes))
}

/// The identifier of a contract of the registry.
pub fn generate_contract_id(code_txt: &Vec<u8>, bytes: &Vec<u8>) -> (r: H256)
    requires
        code_txt@.len() + bytes@.len() <= u32::MAX,
    ensures
        r == contract_id(code_txt@, bytes@),
{
    let mut protocol_part_of_contract: Vec<u8> = Vec::new();
    let mut i: usize = 0;
    while i < code_txt.len()
        invariant
            i <= code_txt.len(),
            protocol_part_of_contract@ == code_txt@.take(i as int),
        decreases code_txt.len() - i,
    {
        protocol_part_of_contract.push(code_txt[i]);
        assert(protocol_part_of_contract@ =~= code_txt@.take(i + 1));
        i += 1;
    }
    assert(code_txt@.take(code_txt.len() as int) =~= code_txt@);
    let mut k: usize = 0;
    while k < bytes.len()
        invariant
            k <= bytes.len(),
            protocol_part_of_contract@ == code_txt@ + bytes@.take(k as int),
        decreases bytes.len() - k,
    {
        protocol_part_of_contract.push(bytes[k]);
        assert(protocol_part_of_contract@ =~= code_txt@ + bytes@.take(k + 1));
        k += 1;
    }
    assert(bytes@.take(bytes.len() as int) =~= bytes@);
    let encoded = encode_bytes(&protocol_part_of_contract);
    blake2_256(&encoded)
}

/// Writes a hash followed by the big-endian bytes of a number.
fn concat_hash_number(hash: &H256, n: u32) -> (r: Vec<u8>)
    ensures
        r@ == hash_with_number(*hash, n),
{
    let mut out: Vec<u8> = Vec::new();
    let mut i: usize = 0;
    while i < 32
        invariant
            i <= 32,
            out@.len() == i,
            forall|k: int| 0 <= k < i ==> out@[k] == hash@[k],
        decreases 32 - i,
    {
        out.push(hash[i]);
        i += 1;
    }
    assert(out@ =~= hash@);
    out.push((n / 0x1000000) as u8);
    out.push(((n / 0x10000) % 0x100) as u8);
    out.push(((n / 0x100) % 0x100) as u8);
    out.push((n % 0x100) as u8);
    assert(out@ =~= hash_with_number(*hash, n));
    out
}

impl SideEffect {
    /// Tells whether the side effect can be encoded: its byte strings and its
    /// list of arguments are no longer than `u32::MAX`.
    pub fn is_encodable(&self) -> (r: bool)
        ensures
            r == encodable(self.deep_view()),
    {
        let max: usize = 0xffff_ffff;
        if self.encoded_action.len() > max || self.signature.len() > max
            || self.encoded_args.len() > max {
            return false;
        }
        let mut i: usize = 0;
        while i < self.encoded_args.len()
            invariant
                i <= self.encoded_args.len(),
                max == u32::MAX,
                forall|k: int|
                    0 <= k < i ==> (#[trigger] self.encoded_args.deep_view()[k]).len() <= u32::MAX,
            decreases self.encoded_args.len() - i,
        {
            assert(self.encoded_args.deep_view()[i as int] == self.encoded_args@[i as int]@);
            if self.encoded_args[i].len() > max {
                return false;
            }
            i += 1;
        }
        true
    }

    /// The identifier of this side effect.
    pub fn generate_id(&self) -> (r: SideEffectId)
        requires
            encodable(self.deep_view()),
        ensures
            r == side_effect_id(self.deep_view()),
    {
        let encoded = encode_side_effect(self);
        blake2_256(&encoded)
    }
}

/// The identifier of the execution transaction that `requester` opens at block `at`.
pub fn generate_xtx_id(requester: &AccountId, at: BlockNumber) -> (r: XtxId)
    ensures
        r == xtx_id_of(*requester, at),
{
    let preimage = concat_hash_number(requester, at);
    blake2_256(&preimage)
}

/// The identifier of a side effect within the step of index `step`.
pub fn generate_step_id(sfx_id: &SideEffectId, step: u32) -> (r: H256)
    ensures
        r == step_side_effect_id(*sfx_id, step),
{
    let preimage = concat_hash_number(sfx_id, step);
    blake2_256(&preimage)
}

} // verus!
