//! The contract handle: an address paired with the bookkeeping account
//! derived from it, with factories for the call builders and readers for the
//! account's balances.

use vstd::prelude::*;
use crate::ids::ActorId32;
use crate::balances::balance_of;
use crate::ledger::Ledger;
use crate::builders::CommandCall;
use crate::builders::CommandCallView;
use crate::builders::CalculateGasCall;
use crate::builders::CalculateGasCallView;
use crate::builders::QueryCall;
use crate::builders::QueryCallView;
use crate::types::AccountData;

verus! {

/// A deployed contract: its ledger address and the account that carries its
/// funds.  Immutable after creation.
pub struct Contract {
    pub(crate) address: ActorId32,
    pub(crate) account: u64,
}

/// The mathematical shape of a contract handle.
#[verifier::ext_equal]
pub ghost struct ContractView {
    pub address: Seq<u8>,
    pub account: u64,
}

impl View for Contract {
    type V = ContractView;

    closed spec fn view(&self) -> ContractView {
        ContractView { address: self.address@, account: self.account }
    }
}

impl Contract {
    /// A handle from an address and its bookkeeping account.
    pub fn new(address: ActorId32, account: u64) -> (r: Self)
        ensures
            r@ == (ContractView { address: address@, account }),
    {
        Contract { address, account }
    }

    /// The contract's address.
    pub fn address(&self) -> (r: ActorId32)
        ensures
            r@ == self@.address,
    {
        self.address
    }

    /// The contract's bookkeeping account.
    pub fn account(&self) -> (r: u64)
        ensures
            r == self@.account,
    {
        self.account
    }

    /// A builder that creates a program from already-uploaded code.
    pub fn create_contract() -> (r: crate::deploy::CreateContract)
        ensures
            r@ == (crate::deploy::CreateContractView {
                signer: None,
                code_id: None,
                constructor_name: None,
                init_payload: None,
                salt: None,
                keep_alive: false,
                gas_limit: None,
            }),
    {
        crate::deploy::CreateContract::new()
    }

    /// A builder that uploads raw code.
    pub fn upload_code() -> (r: crate::deploy::UploadCode)
        ensures
            r@ == (crate::deploy::UploadCodeView { signer: None, wasm: None }),
    {
        crate::deploy::UploadCode::default()
    }

    /// A builder that deploys a program with an empty constructor payload.
    pub fn upload_contract() -> (r: crate::deploy::UploadWasm)
        ensures
            r@ == (crate::deploy::UploadWasmView {
                signer: None,
                wasm: None,
                salt: None,
                keep_alive: false,
                gas_limit: None,
            }),
    {
        crate::deploy::UploadWasm::default()
    }

    /// A builder that deploys a program through a named constructor.
    pub fn upload_sails_contract() -> (r: crate::deploy::UploadSailsWasm)
        ensures
            r@ == (crate::deploy::UploadSailsWasmView {
                signer: None,
                wasm: None,
                constructor_name: None,
                init_payload: None,
                salt: None,
                keep_alive: false,
                gas_limit: None,
            }),
    {
        crate::deploy::UploadSailsWasm::new()
    }

    /// A command call aimed at this contract.
    pub fn new_command(&self) -> (r: CommandCall)
        ensures
            r@ == (CommandCallView {
                contract_address: self@.address,
                signer: None,
                service_name: None,
                method_name: None,
                gas_limit: None,
                keep_alive: false,
                value: 0,
                max_blocks_to_wait: 5,
                no_sails_command: false,
                is_query: false,
                get_waited: true,
                payload: Seq::empty(),
            }),
    {
        CommandCall::new(self.address)
    }

    /// A gas-estimate call aimed at this contract.
    pub fn new_calculate_gas(&self) -> (r: CalculateGasCall)
        ensures
            r@ == (CalculateGasCallView {
                contract_address: self@.address,
                signer: None,
                service_name: None,
                method_name: None,
                value: 0,
                allow_other_panics: false,
                initial_gas: None,
                gas_allowance: None,
                no_sails_command: false,
                payload: None,
            }),
    {
        CalculateGasCall::new(self.address)
    }

    /// A state-query call aimed at this contract.
    pub fn new_query(&self) -> (r: QueryCall)
        ensures
            r@ == (QueryCallView {
                contract_address: self@.address,
                service_name: None,
                method_name: None,
                gas_allowance: None,
                no_sails_query: false,
                payload: None,
            }),
    {
        QueryCall::new(self.address)
    }

    /// The contract account's free balance.
    pub fn free_balance(&self, l: &Ledger) -> (r: u128)
        requires
            l.wf(),
        ensures
            r == balance_of(l@.state.balances, self@.account),
    {
        l.free_balance_of(self.account)
    }

    /// The contract account's frozen balance; the model ledger holds no
    /// locks, so it is always zero.
    pub fn frozen_balance(&self, l: &Ledger) -> (r: u128)
        requires
            l.wf(),
        ensures
            r == 0,
    {
        let _ = l;
        0
    }

    /// The contract account's balance data: its free funds; the model ledger
    /// holds no reserves or locks.
    pub fn get_account_data(&self, l: &Ledger) -> (r: AccountData)
        requires
            l.wf(),
        ensures
            r == (AccountData {
                free: balance_of(l@.state.balances, self@.account),
                reserved: 0,
                frozen: 0,
            }),
    {
        AccountData { free: l.free_balance_of(self.account), reserved: 0, frozen: 0 }
    }
}

} // verus!
