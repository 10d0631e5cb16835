//! The registry of contracts, as far as the Circuit names it: what a registered
//! contract holds, and the identifier under which it is found.
use crate::identity::{contract_id, generate_contract_id};
use crate::primitives::{AccountId, Balance, H256};
use vstd::prelude::*;

verus! {

/// Identifier of a contract of the registry.
pub type RegistryContractId = H256;

/// A program as its author composed it.
#[derive(Debug, PartialEq, Eq)]
pub struct Compose {
    /// Its name.
    pub name: Vec<u8>,
    /// Its code text.
    pub code_txt: Vec<u8>,
    /// The kind of its execution.
    pub exec_type: Vec<u8>,
    /// The account that it runs against.
    pub dest: AccountId,
    /// The value that it is given.
    pub value: Balance,
    /// Its bytecode.
    pub bytes: Vec<u8>,
    /// Its input.
    pub input_data: Vec<u8>,
}

/// A contract of the registry. The descriptions of its actions, the information
/// of the contracts pallet and its metadata are those of the host.
#[derive(Debug, PartialEq, Eq)]
pub struct RegistryContract<ActionDesc, Info, Meta> {
    /// Code text, as the author wrote it.
    pub code_txt: Vec<u8>,
    /// Bytecode.
    pub bytes: Vec<u8>,
    /// Author of the code.
    pub author: AccountId,
    /// Remuneration of the author for a single use, if any.
    pub author_fees_per_single_use: Option<Balance>,
    /// ABI, if any.
    pub abi: Option<Vec<u8>>,
    /// Descriptions of its actions.
    pub action_descriptions: Vec<ActionDesc>,
    /// Information of the contracts pallet, if the contract is alive.
    pub info: Option<Info>,
    /// Metadata for queries.
    pub meta: Meta,
}

impl<ActionDesc, Info, Meta> RegistryContract<ActionDesc, Info, Meta> {
    /// A contract of the given parts.
    pub fn new(
        code_txt: Vec<u8>,
        bytes: Vec<u8>,
        author: AccountId,
        author_fees_per_single_use: Option<Balance>,
        abi: Option<Vec<u8>>,
        action_descriptions: Vec<ActionDesc>,
        info: Option<Info>,
        meta: Meta,
    ) -> (r: Self)
        ensures
            r == (RegistryContract {
                code_txt,
                bytes,
                author,
                author_fees_per_single_use,
                abi,
                action_descriptions,
                info,
                meta,
            }),
    {
        RegistryContract {
            code_txt,
            bytes,
            author,
            author_fees_per_single_use,
            abi,
            action_descriptions,
            info,
            meta,
        }
    }

    /// The identifier of the contract: the hash of the encoding of its code text
    /// followed by its bytecode. Author, fees, ABI and metadata do not enter.
    /// The two together must be no longer than the encoding can tell.
    pub fn generate_id(&self) -> (r: RegistryContractId)
        requires
            self.code_txt@.len() + self.bytes@.len() <= u32::MAX,
        ensures
            r == contract_id(self.code_txt@, self.bytes@),
    {
        generate_contract_id(&self.code_txt, &self.bytes)
    }

    /// The contract of a composed program: its code text and bytecode, with the
    /// given author and descriptions.
    pub fn from_compose(
        compose: Compose,
        action_descriptions: Vec<ActionDesc>,
        author: AccountId,
        author_fees_per_single_use: Option<Balance>,
        abi: Option<Vec<u8>>,
        info: Option<Info>,
        meta: Meta,
    ) -> (r: Self)
        ensures
            r == (RegistryContract {
                code_txt: compose.code_txt,
                bytes: compose.bytes,
                author,
                author_fees_per_single_use,
                abi,
                action_descriptions,
                info,
                meta,
            }),
    {
        RegistryContract::new(
            compose.code_txt,
            compose.bytes,
            author,
            author_fees_per_single_use,
            abi,
            action_descriptions,
            info,
            meta,
        )
    }
}

/// The registry of contracts, as the Circuit asks it.
pub trait ContractsRegistry<ActionDesc, Info, Meta> {
    /// What the registry reports when it fails.
    type Error;

    /// The contract with the identifier.
    fn fetch_contract_by_id(&self, contract_id: RegistryContractId) -> Result<
        RegistryContract<ActionDesc, Info, Meta>,
        Self::Error,
    >;

    /// The contracts of an author, or those whose metadata match.
    fn fetch_contracts(&self, author: Option<AccountId>, metadata: Option<Vec<u8>>) -> Result<
        Vec<RegistryContract<ActionDesc, Info, Meta>>,
        Self::Error,
    >;
}

} // verus!
