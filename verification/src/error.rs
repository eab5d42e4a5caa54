//! The errors a command or a query can end in.

use secret_cosmwasm_std::StdError;
use vstd::prelude::*;
use vstd::string::StringExecFns;

verus! {

/// The host library's error type. It is carried through unopened.
#[verifier::external_type_specification]
#[verifier::external_body]
pub struct ExStdError(StdError);

/// Why a command or a query was refused.
#[derive(Debug, PartialEq)]
pub enum ContractError {
    /// A poll needs between two and eight options.
    InvalidOptionCount,
    /// The title or the description is empty.
    EmptyTitleOrDescription,
    /// The title is longer than 100 bytes.
    TitleTooLong,
    /// The description is longer than 500 bytes.
    DescriptionTooLong,
    /// A poll with the same title and options is already stored.
    PollIdTaken,
    /// No poll is stored under the given identifier.
    PollDoesNotExist,
    /// The chosen option is not one of the poll's options.
    InvalidOptionIndex,
    /// The caller has already voted on this poll.
    AlreadyVoted,
    /// The credential contract answered, and the caller holds no token.
    NoCredential,
    /// The credential contract could not be asked; the text says why.
    CredentialQueryFailed(String),
    /// The credential check answered neither yes nor with an error.
    UnexpectedCredentialAnswer,
    /// The ledger cannot take another poll: the poll counter or the stored
    /// length of the polls' keymap is at its maximum.
    PollLimitReached,
    /// The ledger cannot take the vote: the tally has no counter for the
    /// chosen option, or that counter or the stored length of the votes'
    /// keymap is at its maximum.
    VoteLimitReached,
    /// A register or a stored length that the command needs cannot be read.
    Storage(StdError),
}

impl ContractError {
    /// The text of an error. That of [`ContractError::Storage`] is the host's
    /// and is left open here.
    pub open spec fn text(self) -> Seq<char>
        recommends
            !(self is Storage),
    {
        match self {
            ContractError::InvalidOptionCount => "Invalid number of options (min 2, max 8)"@,
            ContractError::EmptyTitleOrDescription => "Title and description cannot be empty"@,
            ContractError::TitleTooLong => "Title too long (max 100 chars)"@,
            ContractError::DescriptionTooLong => "Description too long (max 500 chars)"@,
            ContractError::PollIdTaken => "Poll ID already taken (same title and options)"@,
            ContractError::PollDoesNotExist => "Poll does not exist"@,
            ContractError::InvalidOptionIndex => "Invalid option index"@,
            ContractError::AlreadyVoted => "You have already voted on this poll"@,
            ContractError::NoCredential => "No SCT tokens found for this address"@,
            ContractError::CredentialQueryFailed(detail) => "SCT query failed: "@ + detail@,
            ContractError::UnexpectedCredentialAnswer => "SCT check returned false unexpectedly"@,
            ContractError::PollLimitReached => "Poll limit reached"@,
            ContractError::VoteLimitReached => "Vote limit reached"@,
            ContractError::Storage(_) => arbitrary(),
        }
    }

    /// The message shown to the caller.
    pub fn message(&self) -> (message: String)
        ensures
            !(self is Storage) ==> message@ == self.text(),
    {
        match self {
            ContractError::InvalidOptionCount => "Invalid number of options (min 2, max 8)".to_owned(),
            ContractError::EmptyTitleOrDescription => "Title and description cannot be empty".to_owned(),
            ContractError::TitleTooLong => "Title too long (max 100 chars)".to_owned(),
            ContractError::DescriptionTooLong => "Description too long (max 500 chars)".to_owned(),
            ContractError::PollIdTaken => "Poll ID already taken (same title and options)".to_owned(),
            ContractError::PollDoesNotExist => "Poll does not exist".to_owned(),
            ContractError::InvalidOptionIndex => "Invalid option index".to_owned(),
            ContractError::AlreadyVoted => "You have already voted on this poll".to_owned(),
            ContractError::NoCredential => "No SCT tokens found for this address".to_owned(),
            ContractError::CredentialQueryFailed(detail) => {
                "SCT query failed: ".to_owned().concat(detail.as_str())
            },
            ContractError::UnexpectedCredentialAnswer => "SCT check returned false unexpectedly".to_owned(),
            ContractError::PollLimitReached => "Poll limit reached".to_owned(),
            ContractError::VoteLimitReached => "Vote limit reached".to_owned(),
            ContractError::Storage(error) => std_error_text(error),
        }
    }
}

/// Calls `to_string` on the host's error, which renders its `Display` text.
///
/// Trusted: nothing is claimed of the text.
#[verifier::external_body]
pub(crate) fn std_error_text(error: &StdError) -> (text: String) {
    error.to_string()
}

} // verus!
