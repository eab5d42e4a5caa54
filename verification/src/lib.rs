//! A private polling ledger for a confidential smart-contract host.
//!
//! Anyone may open a poll; holders of a credential token may vote once per
//! poll; tallies are public while each choice can be read back only by the
//! voter. The ledger lives in the host's key-value storage and every command
//! is checked against a mathematical model of that storage.

pub mod contract;
pub mod digest;
pub mod error;
pub mod ledger;
pub mod msg;
pub mod receipt;
pub mod state;
pub mod storage;
