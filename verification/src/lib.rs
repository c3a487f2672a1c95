//! A test harness for actor-model contracts on a block-stepped model ledger.
//!
//! The harness lets a test deploy a contract, send it an encoded message and
//! learn, over a bounded number of simulated blocks, whether the message was
//! delivered, queued, parked on the wait-list or rejected, recovering any
//! reply payload.  The pieces are: the ledger model with its transaction
//! scope (`ledger`), the block stepper with its fixed hook orders
//! (`stepper`), the event scan that correlates a sent message with its
//! outcome (`correlate`), and the fluent call builders (`builders`,
//! `contract`).

pub mod ids;
pub mod codec;
pub mod events;
pub mod balances;
pub mod stepper;
pub mod ledger;
pub mod types;
pub mod correlate;
pub mod builders;
pub mod deploy;
pub mod contract;
pub mod requests;
