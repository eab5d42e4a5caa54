//! The messages the contract takes and the answers it gives.

use crate::state::Poll;
use vstd::prelude::*;

verus! {

/// What the contract is set up with.
#[derive(Clone, Debug, PartialEq, Eq)]
pub struct InstantiateMsg {
    /// Canonical address of the credential contract.
    pub sct_contract_address: Vec<u8>,
    /// Code hash of the credential contract.
    pub sct_code_hash: String,
}

/// The commands, which change the ledger.
#[derive(Clone, Debug, PartialEq, Eq)]
pub enum ExecuteMsg {
    /// Opens a poll. Anyone may.
    MakePoll { title: String, description: String, options: Vec<String> },
    /// Votes for one option of a poll. Only credential holders may, once.
    CastVote { poll_id: String, option_idx: u32, sct_viewing_key: String },
}

/// The queries, which only read.
#[derive(Clone, Debug, PartialEq, Eq)]
pub enum QueryMsg {
    /// All polls.
    GetPolls {  },
    /// The number of polls.
    GetNumPolls {  },
    /// A query on behalf of the account that signed the permit.
    WithPermit { permit: VerifiedPermit, query: QueryWithPermit },
}

/// The queries that need a permit.
#[derive(Clone, Debug, PartialEq, Eq)]
pub enum QueryWithPermit {
    /// The signer's own vote on a poll.
    GetMyVote { poll_id: String },
}

/// The answers to the queries.
#[derive(Debug, PartialEq, Eq)]
pub enum QueryAnswer {
    GetPolls { polls: Vec<Poll> },
    GetNumPolls { num_polls: u32 },
    GetMyVote { vote: Option<u32> },
}

/// A query permit that the host's permit validator has accepted, reduced to
/// what a query reads of it.
#[derive(Clone, Debug, PartialEq, Eq)]
pub struct VerifiedPermit {
    /// Canonical address of the account that signed the permit.
    pub account: Vec<u8>,
}

/// What a command reads of the block it runs in.
#[derive(Clone, Debug, PartialEq, Eq)]
pub struct Env {
    /// Block time in nanoseconds since the epoch.
    pub block_time: u64,
}

/// What a command reads of the message that carries it.
#[derive(Clone, Debug, PartialEq, Eq)]
pub struct MessageInfo {
    /// Canonical address of the sender.
    pub sender: Vec<u8>,
}

/// The question put to the credential contract.
#[derive(Clone, Debug, PartialEq, Eq)]
pub struct TokensQuery {
    pub tokens: TokensQueryParams,
}

/// Whose tokens are asked for, with which key, and how many at most.
#[derive(Clone, Debug, PartialEq, Eq)]
pub struct TokensQueryParams {
    pub owner: String,
    pub viewing_key: String,
    pub limit: Option<u32>,
}

/// The credential contract's answer.
#[derive(Clone, Debug, PartialEq, Eq)]
pub struct TokensResponse {
    pub token_list: TokenList,
}

/// The identifiers of the tokens that an address holds.
#[derive(Clone, Debug, PartialEq, Eq)]
pub struct TokenList {
    pub tokens: Vec<String>,
}

} // verus!
