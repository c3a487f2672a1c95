//! The result and error types calls to contracts return, and small shared
//! data types.

use vstd::prelude::*;
use crate::events::DispatchStatus;
use crate::ledger::LedgerError;
use crate::stepper::FatalError;

verus! {

/// The least balance a contract account must keep to stay alive.
pub const CONTRACT_EXISTENCIAL_DEPOSIT: u128 = crate::ledger::EXISTENTIAL_DEPOSIT;

/// A required builder field missing at the terminal call: a test-authoring
/// mistake, reported as a configuration error.
#[derive(Clone, Copy, Debug, PartialEq, Eq, Structural)]
pub enum ConfigError {
    MissingServiceName,
    MissingMethodName,
    MissingSigner,
    MissingWasm,
    MissingCodeId,
    MissingSalt,
    MissingConstructorName,
}

/// Error in query calls to contracts.
#[derive(Debug)]
pub enum ContractQueryError {
    QueryError(LedgerError),
    ReadStateError(String),
    ResultDecodeError(String),
    Config(ConfigError),
}

/// Error in command calls to contracts.
#[derive(Debug)]
pub enum ContractCommandError {
    /// The ledger refused the submission.
    CommandError(LedgerError),
    /// A reply payload did not carry two encoded names before its value.
    ResultDecodeError(String),
    /// The message was dispatched with a failing status.
    Failed(DispatchStatus),
    /// A harness-level failure described in text.
    Error(String),
    /// No terminal event arrived within the wait budget.
    TimeOut,
    /// A required builder field was missing.
    Config(ConfigError),
    /// A block-stepper invariant failed; never downgraded to an outcome.
    Fatal(FatalError),
}

/// Command response.
pub enum ContractResponse<R> {
    /// The contract replied with a decoded value.
    Response(R),
    /// The message was dispatched successfully without a direct reply.
    OkNoReply,
    /// The message was parked on the wait-list.
    Waited,
}

/// A gas estimate converted to value units by the fixed multiplier.
#[derive(Debug, Clone, Copy, PartialEq, Eq, Structural)]
pub struct GasEstimation {
    pub min_limit: u128,
    pub burned: u128,
    pub reserved: u128,
    pub may_be_returned: u64,
    pub waited: bool,
}

/// The staking event kinds the harness can assert on.
#[derive(PartialEq, Eq, Structural, Clone, Copy, Debug)]
pub enum StakingEventType {
    Bonded,
    Unbonded,
    Withdrawn,
}

/// Balance data of one account.
#[derive(Clone, Copy, Debug, PartialEq, Eq, Structural)]
pub struct AccountData {
    pub free: u128,
    pub reserved: u128,
    pub frozen: u128,
}

} // verus!
