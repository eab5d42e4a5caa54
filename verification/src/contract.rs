//! The commands and queries of the polling contract.
//!
//! Every function here is verified against the model of the storage in
//! [`crate::ledger`]. What only the host can do (turning addresses into their
//! canonical form, asking the credential contract, validating a permit) is
//! done by the caller, who hands the outcome in as a plain value.

use crate::digest::{generate_poll_id, poll_id_of, texts, vote_key, vote_key_of};
use crate::error::ContractError;
use crate::ledger::{
    lemma_cast_vote_keeps_wf, lemma_fresh_ledger_wf, lemma_make_poll_keeps_wf,
    lemma_walk_lists_every_poll, Ledger,
};
use crate::msg::{
    Env, ExecuteMsg, InstantiateMsg, MessageInfo, QueryAnswer, QueryMsg, QueryWithPermit,
    TokensQuery, TokensQueryParams, TokensResponse,
};
use crate::receipt::{decimal, u32_to_string, Response};
use crate::state::{opened_poll, tally_has_room, Poll, PollView};
use crate::storage::{
    ledger, poll_count_load, poll_count_save, polls_contains, polls_get, polls_insert, polls_iter,
    polls_len, sct_code_hash_load, sct_code_hash_save, sct_contract_address_load,
    sct_contract_address_save, stored_poll_keys, stored_polls, votes_contains, votes_get,
    votes_insert, votes_len, walk_view, walked_item_view, Store,
};
use vstd::prelude::*;
use vstd::utf8::encode_utf8;

verus! {

/// The fewest options a poll may have.
pub const MIN_OPTIONS: usize = 2;

/// The most options a poll may have.
pub const MAX_OPTIONS: usize = 8;

/// The longest title, in bytes.
pub const MAX_TITLE_BYTES: usize = 100;

/// The longest description, in bytes.
pub const MAX_DESCRIPTION_BYTES: usize = 500;

/// How many tokens the credential contract is asked to list at most.
pub const TOKENS_QUERY_LIMIT: u32 = 30;

/// The verdict on the contents of a poll: the number of options first, then
/// empty fields, then the title's length, then the description's.
pub open spec fn poll_contents_check(title: Seq<char>, description: Seq<char>, options: nat) -> Result<
    (),
    ContractError,
> {
    if options < MIN_OPTIONS || options > MAX_OPTIONS {
        Err(ContractError::InvalidOptionCount)
    } else if title.len() == 0 || description.len() == 0 {
        Err(ContractError::EmptyTitleOrDescription)
    } else if encode_utf8(title).len() > MAX_TITLE_BYTES {
        Err(ContractError::TitleTooLong)
    } else if encode_utf8(description).len() > MAX_DESCRIPTION_BYTES {
        Err(ContractError::DescriptionTooLong)
    } else {
        Ok(())
    }
}

/// The verdict on a new poll: its contents first, then whether its
/// identifier is taken.
pub open spec fn poll_check(title: Seq<char>, description: Seq<char>, options: nat, taken: bool) -> Result<
    (),
    ContractError,
> {
    match poll_contents_check(title, description, options) {
        Err(error) => Err(error),
        Ok(_) => if taken {
            Err(ContractError::PollIdTaken)
        } else {
            Ok(())
        },
    }
}

/// The verdict on a vote: the poll must exist and the option must be one of
/// its options.
pub open spec fn vote_check(polls: Map<Seq<char>, PollView>, poll_id: Seq<char>, option_idx: u32) -> Result<
    (),
    ContractError,
> {
    if !polls.dom().contains(poll_id) {
        Err(ContractError::PollDoesNotExist)
    } else if option_idx >= polls[poll_id].options.len() {
        Err(ContractError::InvalidOptionIndex)
    } else {
        Ok(())
    }
}

/// Checks the contents of a poll, whatever is stored.
pub fn validate_poll_contents(title: &str, description: &str, options: &[String]) -> (verdict: Result<
    (),
    ContractError,
>)
    ensures
        verdict == poll_contents_check(title@, description@, options@.len()),
{
    if options.len() < MIN_OPTIONS || options.len() > MAX_OPTIONS {
        return Err(ContractError::InvalidOptionCount);
    }
    if title.is_empty() || description.is_empty() {
        return Err(ContractError::EmptyTitleOrDescription);
    }
    if title.as_bytes().len() > MAX_TITLE_BYTES {
        return Err(ContractError::TitleTooLong);
    }
    if description.as_bytes().len() > MAX_DESCRIPTION_BYTES {
        return Err(ContractError::DescriptionTooLong);
    }
    Ok(())
}

/// Checks a new poll: its contents, and that the polls' keymap holds
/// nothing under `poll_id`.
pub fn validate_poll(
    title: &str,
    description: &str,
    options: &[String],
    poll_id: &str,
    store: &Store,
) -> (verdict: Result<(), ContractError>)
    ensures
        verdict == poll_check(
            title@,
            description@,
            options@.len(),
            stored_poll_keys(store).contains(poll_id@),
        ),
{
    let contents = validate_poll_contents(title, description, options);
    if contents.is_err() {
        return contents;
    }
    if polls_contains(store, &poll_id.to_owned()) {
        return Err(ContractError::PollIdTaken);
    }
    Ok(())
}

/// Checks a vote against the poll it is for, if there is one.
pub fn validate_vote_on(poll: Option<&Poll>, option_idx: u32) -> (verdict: Result<(), ContractError>)
    ensures
        verdict == (match poll {
            None => Err::<(), ContractError>(ContractError::PollDoesNotExist),
            Some(poll) => if option_idx >= poll.options@.len() {
                Err(ContractError::InvalidOptionIndex)
            } else {
                Ok(())
            },
        }),
{
    match poll {
        None => Err(ContractError::PollDoesNotExist),
        Some(poll) => {
            if option_idx as usize >= poll.options.len() {
                Err(ContractError::InvalidOptionIndex)
            } else {
                Ok(())
            }
        },
    }
}

/// Checks a vote against the stored polls.
///
/// Whether the caller has voted before is not looked at here.
pub fn validate_vote(poll_id: &str, option_idx: u32, store: &Store) -> (verdict: Result<
    (),
    ContractError,
>)
    ensures
        verdict == vote_check(stored_polls(store), poll_id@, option_idx),
{
    let poll = polls_get(store, &poll_id.to_owned());
    validate_vote_on(poll.as_ref(), option_idx)
}

/// The receipt of a poll that was opened.
pub open spec fn make_poll_receipt(poll_id: Seq<char>) -> Seq<(Seq<char>, Seq<char>)> {
    seq![("action"@, "make_poll"@), ("poll_id"@, poll_id)]
}

/// What opening a poll does to the ledger, and what it answers.
///
/// A poll that fails its check is refused with the check's error. Then the
/// counter must have a value, below its maximum, and so must the stored
/// length of the polls' keymap: a value that cannot be read is the storage's
/// error, one at its maximum means that the limit is reached. Past that the
/// command succeeds: the poll is stored under its identifier with an
/// all-zero tally and counted. A command that is refused leaves the ledger as
/// it was.
pub open spec fn make_poll_spec(
    before: Ledger,
    after: Ledger,
    block_time: u64,
    title: Seq<char>,
    description: Seq<char>,
    options: Seq<Seq<char>>,
    outcome: Result<Response, ContractError>,
) -> bool {
    let poll_id = poll_id_of(title, options);
    match poll_check(title, description, options.len(), before.poll_keys.contains(poll_id)) {
        Err(error) => outcome == Err::<Response, ContractError>(error) && after == before,
        Ok(_) => if before.poll_count is None || (before.poll_count != Some(u32::MAX)
            && before.polls_length is None) {
            outcome is Err && outcome->Err_0 is Storage && after == before
        } else if before.poll_count == Some(u32::MAX) || before.polls_full() {
            outcome == Err::<Response, ContractError>(ContractError::PollLimitReached) && after
                == before
        } else {
            outcome is Ok && outcome->Ok_0@ == make_poll_receipt(poll_id) && after
                == before.after_make_poll(opened_poll(title, description, block_time, options))
        },
    }
}

/// Opens a poll with the given title, description and options.
///
/// The poll's identifier is derived from its title and options, so a second
/// poll with the same title and options is refused whatever its description.
pub fn try_make_poll(
    store: &mut Store,
    env: &Env,
    title: String,
    description: String,
    options: Vec<String>,
) -> (outcome: Result<Response, ContractError>)
    ensures
        make_poll_spec(
            ledger(old(store)),
            ledger(final(store)),
            env.block_time,
            title@,
            description@,
            texts(options@),
            outcome,
        ),
        ledger(old(store)).wf() ==> ledger(final(store)).wf(),
{
    proof {
        if ledger(old(store)).wf() && !ledger(old(store)).poll_keys.contains(
            poll_id_of(title@, texts(options@)),
        ) && ledger(old(store)).poll_count->0 < u32::MAX {
            lemma_make_poll_keeps_wf(
                ledger(old(store)),
                title@,
                description@,
                env.block_time,
                texts(options@),
            );
        }
    }
    let poll_id = generate_poll_id(title.as_str(), options.as_slice());
    assert(texts(options@).len() == options@.len());
    match validate_poll(
        title.as_str(),
        description.as_str(),
        options.as_slice(),
        poll_id.as_str(),
        store,
    ) {
        Err(error) => {
            return Err(error);
        },
        Ok(_) => {},
    }
    let current_count = match poll_count_load(store) {
        Err(error) => {
            return Err(ContractError::Storage(error));
        },
        Ok(count) => count,
    };
    if current_count == u32::MAX {
        return Err(ContractError::PollLimitReached);
    }
    match polls_len(store) {
        Err(error) => {
            return Err(ContractError::Storage(error));
        },
        Ok(stored) => {
            if stored == u32::MAX {
                return Err(ContractError::PollLimitReached);
            }
        },
    }
    let poll = Poll::opened(poll_id.clone(), title, description, env.block_time, options);
    match polls_insert(store, &poll_id, &poll) {
        Err(error) => {
            return Err(ContractError::Storage(error));
        },
        Ok(_) => {},
    }
    match poll_count_save(store, current_count + 1) {
        Err(error) => {
            return Err(ContractError::Storage(error));
        },
        Ok(_) => {},
    }
    let receipt = Response::new().add_attribute("action".to_owned(), "make_poll".to_owned())
        .add_attribute("poll_id".to_owned(), poll_id);
    assert(receipt@ =~= make_poll_receipt(poll_id@));
    Ok(receipt)
}

/// The question to put to the credential contract for `owner`: the tokens
/// that `owner` holds, readable with `viewing_key`, thirty at most.
pub fn tokens_query(owner: String, viewing_key: String) -> (query: TokensQuery)
    ensures
        query.tokens.owner == owner,
        query.tokens.viewing_key == viewing_key,
        query.tokens.limit == Some(TOKENS_QUERY_LIMIT),
{
    TokensQuery { tokens: TokensQueryParams { owner, viewing_key, limit: Some(TOKENS_QUERY_LIMIT) } }
}

/// The verdict on a caller, from what the credential contract replied: a
/// caller with at least one token may vote, one with none may not, and a
/// question that failed is an error that carries the reason.
pub open spec fn credential_check(reply: Result<TokensResponse, String>) -> Result<
    bool,
    ContractError,
> {
    match reply {
        Ok(response) => if response.token_list.tokens@.len() > 0 {
            Ok(true)
        } else {
            Err(ContractError::NoCredential)
        },
        Err(detail) => Err(ContractError::CredentialQueryFailed(detail)),
    }
}

/// Decides from the credential contract's reply whether the caller holds a
/// credential token. The answer is never `Ok(false)`.
pub fn address_owns_sct(reply: Result<TokensResponse, String>) -> (verdict: Result<
    bool,
    ContractError,
>)
    ensures
        verdict == credential_check(reply),
{
    match reply {
        Ok(response) => {
            let has_tokens = response.token_list.tokens.len() > 0;
            if has_tokens {
                Ok(true)
            } else {
                Err(ContractError::NoCredential)
            }
        },
        Err(detail) => Err(ContractError::CredentialQueryFailed(detail)),
    }
}

/// The receipt of a vote that was cast.
pub open spec fn cast_vote_receipt(poll_id: Seq<char>, option_idx: u32) -> Seq<
    (Seq<char>, Seq<char>),
> {
    seq![
        ("action"@, "cast_vote"@),
        ("poll_id"@, poll_id),
        ("option_idx"@, decimal(option_idx as nat)),
    ]
}

/// What casting a vote does to the ledger, and what it answers.
///
/// The credential comes first: a caller without one is refused with the
/// credential's error whatever else holds. Then the vote is checked against
/// the stored poll, then against the votes already cast, then against the
/// room in the tally. Then the stored length of the votes' keymap must have
/// a value, below its maximum: a value that cannot be read is the storage's
/// error, one at its maximum means that the limit is reached. Past that the
/// command succeeds: the vote is recorded under its key and the poll's tally
/// counts it. A command that is refused leaves the ledger as it was.
pub open spec fn cast_vote_spec(
    before: Ledger,
    after: Ledger,
    voter: Seq<u8>,
    poll_id: Seq<char>,
    option_idx: u32,
    reply: Result<TokensResponse, String>,
    outcome: Result<Response, ContractError>,
) -> bool {
    match credential_check(reply) {
        Err(error) => outcome == Err::<Response, ContractError>(error) && after == before,
        Ok(_) => match vote_check(before.polls, poll_id, option_idx) {
            Err(error) => outcome == Err::<Response, ContractError>(error) && after == before,
            Ok(_) => if before.vote_keys.contains(vote_key_of(poll_id, voter)) {
                outcome == Err::<Response, ContractError>(ContractError::AlreadyVoted) && after
                    == before
            } else if !tally_has_room(before.polls[poll_id].tally, option_idx) {
                outcome == Err::<Response, ContractError>(ContractError::VoteLimitReached)
                    && after == before
            } else if before.votes_length is None {
                outcome is Err && outcome->Err_0 is Storage && after == before
            } else if before.votes_full() {
                outcome == Err::<Response, ContractError>(ContractError::VoteLimitReached)
                    && after == before
            } else {
                outcome is Ok && outcome->Ok_0@ == cast_vote_receipt(poll_id, option_idx) && after
                    == before.after_cast_vote(poll_id, voter, option_idx)
            },
        },
    }
}

/// Casts the sender's vote for option `option_idx` of poll `poll_id`.
///
/// `sct_reply` is what the credential contract replied when it was asked for
/// the sender's tokens.
pub fn try_cast_vote(
    store: &mut Store,
    info: &MessageInfo,
    poll_id: String,
    option_idx: u32,
    sct_reply: Result<TokensResponse, String>,
) -> (outcome: Result<Response, ContractError>)
    ensures
        cast_vote_spec(
            ledger(old(store)),
            ledger(final(store)),
            info.sender@,
            poll_id@,
            option_idx,
            sct_reply,
            outcome,
        ),
        ledger(old(store)).wf() ==> ledger(final(store)).wf(),
{
    proof {
        let before = ledger(old(store));
        if before.wf() && vote_check(before.polls, poll_id@, option_idx) is Ok
            && !before.vote_keys.contains(vote_key_of(poll_id@, info.sender@)) && tally_has_room(
            before.polls[poll_id@].tally,
            option_idx,
        ) && !before.votes_full() {
            lemma_cast_vote_keeps_wf(before, poll_id@, info.sender@, option_idx);
        }
    }
    match address_owns_sct(sct_reply) {
        Ok(true) => {},
        Ok(false) => {
            return Err(ContractError::UnexpectedCredentialAnswer);
        },
        Err(error) => {
            return Err(error);
        },
    }
    match validate_vote(poll_id.as_str(), option_idx, store) {
        Err(error) => {
            return Err(error);
        },
        Ok(_) => {},
    }
    let key = vote_key(poll_id.as_str(), &info.sender);
    if votes_contains(store, &key) {
        return Err(ContractError::AlreadyVoted);
    }
    let poll = match polls_get(store, &poll_id) {
        None => {
            return Err(ContractError::PollDoesNotExist);
        },
        Some(poll) => poll,
    };
    let poll = match poll.counted(option_idx) {
        None => {
            return Err(ContractError::VoteLimitReached);
        },
        Some(poll) => poll,
    };
    match votes_len(store) {
        Err(error) => {
            return Err(ContractError::Storage(error));
        },
        Ok(recorded) => {
            if recorded == u32::MAX {
                return Err(ContractError::VoteLimitReached);
            }
        },
    }
    match votes_insert(store, &key, option_idx) {
        Err(error) => {
            return Err(ContractError::Storage(error));
        },
        Ok(_) => {},
    }
    match polls_insert(store, &poll_id, &poll) {
        Err(error) => {
            return Err(ContractError::Storage(error));
        },
        Ok(_) => {},
    }
    let receipt = Response::new().add_attribute("action".to_owned(), "cast_vote".to_owned())
        .add_attribute("poll_id".to_owned(), poll_id).add_attribute(
        "option_idx".to_owned(),
        u32_to_string(option_idx),
    );
    assert(receipt@ =~= cast_vote_receipt(poll_id@, option_idx));
    Ok(receipt)
}

/// What setting the contract up does to the ledger: it always succeeds,
/// both registers of the credential contract are written and the counter
/// starts at zero. The polls and the votes are not touched.
pub open spec fn instantiate_spec(
    before: Ledger,
    after: Ledger,
    msg: InstantiateMsg,
    outcome: Result<Response, ContractError>,
) -> bool {
    &&& outcome is Ok
    &&& outcome->Ok_0@ == Seq::<(Seq<char>, Seq<char>)>::empty()
    &&& after == (Ledger {
        sct_contract_address: Some(msg.sct_contract_address@),
        sct_code_hash: Some(msg.sct_code_hash@),
        poll_count: Some(0u32),
        ..before
    })
}

/// Sets the contract up: remembers the credential contract and starts the
/// poll counter at zero.
pub fn instantiate(store: &mut Store, msg: InstantiateMsg) -> (outcome: Result<
    Response,
    ContractError,
>)
    ensures
        instantiate_spec(ledger(old(store)), ledger(final(store)), msg, outcome),
{
    match sct_contract_address_save(store, &msg.sct_contract_address) {
        Err(error) => {
            return Err(ContractError::Storage(error));
        },
        Ok(_) => {},
    }
    match sct_code_hash_save(store, &msg.sct_code_hash) {
        Err(error) => {
            return Err(ContractError::Storage(error));
        },
        Ok(_) => {},
    }
    match poll_count_save(store, 0) {
        Err(error) => {
            return Err(ContractError::Storage(error));
        },
        Ok(_) => {},
    }
    Ok(Response::new())
}

/// What a command does to the ledger, and what it answers: what
/// [`make_poll_spec`] says of `MakePoll` and [`cast_vote_spec`] of `CastVote`.
pub open spec fn execute_spec(
    before: Ledger,
    after: Ledger,
    env: Env,
    info: MessageInfo,
    msg: ExecuteMsg,
    sct_reply: Result<TokensResponse, String>,
    outcome: Result<Response, ContractError>,
) -> bool {
    match msg {
        ExecuteMsg::MakePoll { title, description, options } => make_poll_spec(
            before,
            after,
            env.block_time,
            title@,
            description@,
            texts(options@),
            outcome,
        ),
        ExecuteMsg::CastVote { poll_id, option_idx, sct_viewing_key } => cast_vote_spec(
            before,
            after,
            info.sender@,
            poll_id@,
            option_idx,
            sct_reply,
            outcome,
        ),
    }
}

/// Runs a command.
///
/// `sct_reply` is what the credential contract replied for the sender; only
/// `CastVote` reads it.
pub fn execute(
    store: &mut Store,
    env: &Env,
    info: &MessageInfo,
    msg: ExecuteMsg,
    sct_reply: Result<TokensResponse, String>,
) -> (outcome: Result<Response, ContractError>)
    ensures
        execute_spec(ledger(old(store)), ledger(final(store)), *env, *info, msg, sct_reply, outcome),
        ledger(old(store)).wf() ==> ledger(final(store)).wf(),
{
    match msg {
        ExecuteMsg::MakePoll { title, description, options } => {
            try_make_poll(store, env, title, description, options)
        },
        ExecuteMsg::CastVote { poll_id, option_idx, sct_viewing_key } => {
            try_cast_vote(store, info, poll_id, option_idx, sct_reply)
        },
    }
}

/// The credential contract's canonical address and code hash, as they were
/// stored when the contract was set up.
pub fn sct_contract(store: &Store) -> (outcome: Result<(Vec<u8>, String), ContractError>)
    ensures
        match outcome {
            Ok(contract) => ledger(store).sct_contract_address == Some(contract.0@) && ledger(
                store,
            ).sct_code_hash == Some(contract.1@),
            Err(error) => error is Storage && (ledger(store).sct_contract_address is None || ledger(
                store,
            ).sct_code_hash is None),
        },
{
    let address = match sct_contract_address_load(store) {
        Err(error) => {
            return Err(ContractError::Storage(error));
        },
        Ok(address) => address,
    };
    let code_hash = match sct_code_hash_load(store) {
        Err(error) => {
            return Err(ContractError::Storage(error));
        },
        Ok(code_hash) => code_hash,
    };
    Ok((address, code_hash))
}

/// The vote that `address` cast on `poll_id`, if any. A poll that does not
/// exist has no votes.
pub fn get_user_vote(store: &Store, poll_id: &str, address: &Vec<u8>) -> (outcome: Result<
    Option<u32>,
    ContractError,
>)
    ensures
        outcome == Ok::<Option<u32>, ContractError>(ledger(store).vote_of(poll_id@, address@)),
{
    let key = vote_key(poll_id, address);
    let vote = votes_get(store, &key);
    Ok(vote)
}

/// Answers `GetMyVote` for the account that asks.
pub fn query_get_my_vote(store: &Store, requesting_account: &Vec<u8>, poll_id: &str) -> (outcome:
    Result<QueryAnswer, ContractError>)
    ensures
        outcome == Ok::<QueryAnswer, ContractError>(
            QueryAnswer::GetMyVote { vote: ledger(store).vote_of(poll_id@, requesting_account@) },
        ),
{
    match get_user_vote(store, poll_id, requesting_account) {
        Ok(vote) => Ok(QueryAnswer::GetMyVote { vote }),
        Err(error) => Err(error),
    }
}

/// Answers a query that came with a permit, on behalf of `account`, the
/// canonical address of the permit's signer.
pub fn permit_queries(store: &Store, account: &Vec<u8>, query: QueryWithPermit) -> (outcome: Result<
    QueryAnswer,
    ContractError,
>)
    ensures
        outcome == Ok::<QueryAnswer, ContractError>(
            QueryAnswer::GetMyVote {
                vote: ledger(store).vote_of(query->GetMyVote_poll_id@, account@),
            },
        ),
{
    match query {
        QueryWithPermit::GetMyVote { poll_id } => query_get_my_vote(
            store,
            account,
            poll_id.as_str(),
        ),
    }
}

/// Answers `GetNumPolls` with the poll counter.
pub fn query_get_num_polls(store: &Store) -> (outcome: Result<QueryAnswer, ContractError>)
    ensures
        match ledger(store).poll_count {
            Some(count) => outcome == Ok::<QueryAnswer, ContractError>(
                QueryAnswer::GetNumPolls { num_polls: count },
            ),
            None => outcome is Err && outcome->Err_0 is Storage,
        },
{
    match poll_count_load(store) {
        Ok(num_polls) => Ok(QueryAnswer::GetNumPolls { num_polls }),
        Err(error) => Err(ContractError::Storage(error)),
    }
}

/// The polls among the items of a walk over the stored polls: the items that
/// could be read, in the order they came.
pub open spec fn listed_polls(items: Seq<Option<(String, Poll)>>) -> Seq<Poll>
    decreases items.len(),
{
    if items.len() == 0 {
        Seq::empty()
    } else {
        match items.last() {
            Some(entry) => listed_polls(items.drop_last()).push(entry.1),
            None => listed_polls(items.drop_last()),
        }
    }
}

/// The polls that a walk over the stored polls has brought: none where the
/// walk could not start, else those of the items that could be read, in the
/// order they came.
pub fn collect_polls(listing: Option<Vec<Option<(String, Poll)>>>) -> (polls: Vec<Poll>)
    ensures
        polls@ == (match listing {
            None => Seq::<Poll>::empty(),
            Some(items) => listed_polls(items@),
        }),
{
    let mut polls: Vec<Poll> = Vec::new();
    match listing {
        None => {},
        Some(items) => {
            let ghost all = items@;
            let mut rest = items;
            assert(all.take(0) =~= Seq::<Option<(String, Poll)>>::empty());
            let mut reversed: Vec<Poll> = Vec::new();
            while rest.len() > 0
                invariant
                    rest@.len() <= all.len(),
                    rest@ == all.take(rest@.len() as int),
                    listed_polls(all) == listed_polls(rest@) + reversed@.reverse(),
                decreases rest@.len(),
            {
                let ghost before = rest@;
                let item = rest.pop();
                assert(rest@ =~= before.drop_last());
                assert(rest@ =~= all.take(rest@.len() as int));
                match item {
                    Some(Some(entry)) => {
                        let ghost so_far = reversed@;
                        reversed.push(entry.1);
                        assert(reversed@.reverse() =~= seq![entry.1] + so_far.reverse());
                        assert(listed_polls(before) == listed_polls(rest@).push(entry.1));
                        assert(listed_polls(rest@).push(entry.1) + so_far.reverse() =~= listed_polls(
                            rest@,
                        ) + (seq![entry.1] + so_far.reverse()));
                    },
                    _ => {},
                }
            }
            assert(listed_polls(rest@) =~= Seq::<Poll>::empty());
            while reversed.len() > 0
                invariant
                    listed_polls(all) == polls@ + reversed@.reverse(),
                decreases reversed@.len(),
            {
                let ghost before = reversed@;
                let ghost so_far = polls@;
                let poll = reversed.pop();
                match poll {
                    Some(poll) => {
                        polls.push(poll);
                        assert(reversed@ =~= before.drop_last());
                        assert(before.reverse() =~= seq![poll] + reversed@.reverse());
                        assert(polls@ + reversed@.reverse() =~= so_far + before.reverse());
                    },
                    None => {},
                }
            }
            assert(reversed@.reverse() =~= Seq::<Poll>::empty());
            assert(polls@ =~= listed_polls(all));
        },
    }
    polls
}

/// The values of a list of polls.
pub open spec fn poll_views(polls: Seq<Poll>) -> Seq<PollView> {
    polls.map_values(|poll: Poll| poll@)
}

/// The poll of an item of a walk, where the item was read.
pub open spec fn item_poll(item: Option<(Seq<char>, PollView)>) -> PollView {
    match item {
        Some(entry) => entry.1,
        None => arbitrary(),
    }
}

/// The polls among the items of a walk: those of the items that could be
/// read, in the order of the walk.
pub open spec fn read_polls(items: Seq<Option<(Seq<char>, PollView)>>) -> Seq<PollView>
    decreases items.len(),
{
    if items.len() == 0 {
        Seq::empty()
    } else {
        match items.last() {
            Some(entry) => read_polls(items.drop_last()).push(entry.1),
            None => read_polls(items.drop_last()),
        }
    }
}

/// The polls that a walk over the stored polls yields: none where no walk
/// could start, else those of its items that could be read, in its order.
pub open spec fn walked_polls(walk: Option<Seq<Option<(Seq<char>, PollView)>>>) -> Seq<PollView> {
    match walk {
        Some(items) => read_polls(items),
        None => Seq::empty(),
    }
}

proof fn lemma_listed_polls_views(items: Seq<Option<(String, Poll)>>)
    ensures
        poll_views(listed_polls(items)) == read_polls(
            items.map_values(|item: Option<(String, Poll)>| walked_item_view(item)),
        ),
    decreases items.len(),
{
    let views = items.map_values(|item: Option<(String, Poll)>| walked_item_view(item));
    if items.len() == 0 {
        assert(poll_views(listed_polls(items)) =~= Seq::<PollView>::empty());
    } else {
        let rest = items.drop_last();
        lemma_listed_polls_views(rest);
        assert(views.drop_last() =~= rest.map_values(
            |item: Option<(String, Poll)>| walked_item_view(item),
        ));
        assert(views.last() == walked_item_view(items.last()));
        match items.last() {
            Some(entry) => {
                assert(poll_views(listed_polls(items)) =~= poll_views(listed_polls(rest)).push(
                    entry.1@,
                ));
            },
            None => {},
        }
    }
}

spec fn read_from(items: Seq<Option<(Seq<char>, PollView)>>, j: int, poll: PollView) -> bool {
    0 <= j < items.len() && items[j] is Some && item_poll(items[j]) == poll
}

proof fn lemma_read_polls_are_items(items: Seq<Option<(Seq<char>, PollView)>>, i: int)
    requires
        0 <= i < read_polls(items).len(),
    ensures
        exists|j: int| read_from(items, j, read_polls(items)[i]),
    decreases items.len(),
{
    if items.len() > 0 {
        let rest = items.drop_last();
        if i < read_polls(rest).len() {
            lemma_read_polls_are_items(rest, i);
            let j = choose|j: int| read_from(rest, j, read_polls(rest)[i]);
            assert(read_from(items, j, read_polls(items)[i]));
        } else {
            assert(read_from(items, items.len() - 1, read_polls(items)[i]));
        }
    }
}

proof fn lemma_read_polls_of_full_walk(items: Seq<Option<(Seq<char>, PollView)>>)
    requires
        forall|j: int| 0 <= j < items.len() ==> (#[trigger] items[j]) is Some,
    ensures
        read_polls(items).len() == items.len(),
        forall|j: int| 0 <= j < items.len() ==> read_polls(items)[j] == item_poll(#[trigger] items[j]),
    decreases items.len(),
{
    if items.len() > 0 {
        let rest = items.drop_last();
        assert forall|j: int| 0 <= j < rest.len() implies (#[trigger] rest[j]) is Some by {
            assert(items[j] is Some);
        }
        lemma_read_polls_of_full_walk(rest);
        assert(items[items.len() - 1] is Some);
        assert forall|j: int| 0 <= j < items.len() implies read_polls(items)[j] == item_poll(
            #[trigger] items[j],
        ) by {
            if j < rest.len() {
                assert(rest[j] == items[j]);
            }
        }
    }
}

/// Whether the poll at place `i` of `polls` is `poll`.
pub open spec fn lists(polls: Seq<Poll>, i: int, poll: PollView) -> bool {
    0 <= i < polls.len() && polls[i]@ == poll
}

/// What the answer to `GetPolls` holds: the polls that the walk over the
/// stored polls yields, in its order. So each of its polls is a stored poll;
/// and in a consistent ledger it holds every stored poll, each once.
pub open spec fn polls_answer_spec(held: Ledger, polls: Seq<Poll>) -> bool {
    &&& poll_views(polls) == walked_polls(held.polls_walk())
    &&& forall|i: int| 0 <= i < polls.len() ==> held.polls.contains_value((#[trigger] polls[i])@)
    &&& held.wf() ==> polls.len() == held.polls.dom().len() && forall|poll_id: Seq<char>| #[trigger]
        held.polls.dom().contains(poll_id) ==> exists|i: int| lists(polls, i, held.polls[poll_id])
}

proof fn lemma_walked_polls_answer(held: Ledger, polls: Seq<Poll>)
    requires
        poll_views(polls) == walked_polls(held.polls_walk()),
    ensures
        polls_answer_spec(held, polls),
{
    let views = poll_views(polls);
    assert(views.len() == polls.len());
    if held.polls_walk() is Some {
        let items = held.polls_walk()->0;
        assert forall|i: int| 0 <= i < polls.len() implies held.polls.contains_value(
            (#[trigger] polls[i])@,
        ) by {
            assert(views[i] == polls[i]@);
            lemma_read_polls_are_items(items, i);
            let j = choose|j: int| read_from(items, j, read_polls(items)[i]);
            assert(items[j] == held.walk_item(j));
            let key = held.poll_index[j]->0;
            assert(held.polls.dom().contains(key));
            assert(held.polls[key] == polls[i]@);
        }
        if held.wf() {
            lemma_walk_lists_every_poll(held);
            assert forall|j: int| 0 <= j < items.len() implies (#[trigger] items[j]) is Some by {
                assert(held.poll_index[j] is Some);
                assert(held.walk_brings(j, held.poll_index[j]->0));
            }
            lemma_read_polls_of_full_walk(items);
            assert forall|poll_id: Seq<char>| #[trigger]
                held.polls.dom().contains(poll_id) implies exists|i: int|
                lists(polls, i, held.polls[poll_id]) by {
                let pos = choose|pos: int| held.walk_brings(pos, poll_id);
                assert(views[pos] == polls[pos]@);
                assert(lists(polls, pos, held.polls[poll_id]));
            }
        }
    } else {
        assert(views.len() == 0);
        if held.wf() {
            lemma_walk_lists_every_poll(held);
        }
    }
}

/// Answers `GetPolls` with the polls that a walk over the stored polls
/// brings, in the order of the walk. Where the stored length cannot be read
/// the answer is empty, and an entry that cannot be read is left out.
///
/// The walk looks every position below the stored length up in the index,
/// so the index must have a page for each of them, as it has in every ledger
/// that the commands have written.
pub fn query_get_polls(store: &Store) -> (outcome: Result<QueryAnswer, ContractError>)
    requires
        ledger(store).walk_runs(),
    ensures
        outcome matches Ok(QueryAnswer::GetPolls { polls }) && polls_answer_spec(
            ledger(store),
            polls@,
        ),
{
    let listing = polls_iter(store);
    let ghost items: Seq<Option<(String, Poll)>> = if listing is Some {
        listing->0@
    } else {
        Seq::empty()
    };
    let ghost walked = listing is Some;
    let polls = collect_polls(listing);
    proof {
        if walked {
            lemma_listed_polls_views(items);
        } else {
            assert(poll_views(polls@) =~= Seq::<PollView>::empty());
        }
        lemma_walked_polls_answer(ledger(store), polls@);
    }
    Ok(QueryAnswer::GetPolls { polls })
}

/// What a query answers.
pub open spec fn query_spec(
    held: Ledger,
    msg: QueryMsg,
    outcome: Result<QueryAnswer, ContractError>,
) -> bool {
    match msg {
        QueryMsg::GetPolls {  } => outcome matches Ok(QueryAnswer::GetPolls { polls })
            && polls_answer_spec(held, polls@),
        QueryMsg::GetNumPolls {  } => match held.poll_count {
            Some(count) => outcome == Ok::<QueryAnswer, ContractError>(
                QueryAnswer::GetNumPolls { num_polls: count },
            ),
            None => outcome is Err && outcome->Err_0 is Storage,
        },
        QueryMsg::WithPermit { permit, query } => outcome == Ok::<QueryAnswer, ContractError>(
            QueryAnswer::GetMyVote {
                vote: held.vote_of(query->GetMyVote_poll_id@, permit.account@),
            },
        ),
    }
}

/// Answers a query. The storage is only read. `GetPolls` walks the stored
/// polls and needs what [`query_get_polls`] needs.
pub fn query(store: &Store, msg: QueryMsg) -> (outcome: Result<QueryAnswer, ContractError>)
    requires
        msg is GetPolls ==> ledger(store).walk_runs(),
    ensures
        query_spec(ledger(store), msg, outcome),
{
    match msg {
        QueryMsg::GetPolls {  } => query_get_polls(store),
        QueryMsg::GetNumPolls {  } => query_get_num_polls(store),
        QueryMsg::WithPermit { permit, query } => permit_queries(store, &permit.account, query),
    }
}

/// Setting the contract up in a storage that holds nothing of the ledger
/// leaves a consistent ledger.
pub proof fn lemma_instantiate_establishes_wf(
    before: Ledger,
    after: Ledger,
    msg: InstantiateMsg,
    outcome: Result<Response, ContractError>,
)
    requires
        instantiate_spec(before, after, msg, outcome),
        before.polls == Map::<Seq<char>, PollView>::empty(),
        before.poll_keys == Set::<Seq<char>>::empty(),
        before.polls_length == Some(0u32),
        before.poll_index.dom() == Set::<int>::empty(),
        before.votes == Map::<Seq<char>, u32>::empty(),
        before.vote_keys == Set::<Seq<char>>::empty(),
        before.votes_length == Some(0u32),
    ensures
        outcome is Ok,
        after.wf(),
{
    lemma_fresh_ledger_wf(after);
}

/// A command keeps a consistent ledger consistent, whatever its outcome:
/// every stored poll stays well formed and under its own identifier, every
/// vote stays on a stored poll and within its options, the counter stays the
/// number of polls, every tally stays the number of votes on its poll, and
/// both keymaps stay in order.
pub proof fn lemma_execute_keeps_wf(
    before: Ledger,
    after: Ledger,
    env: Env,
    info: MessageInfo,
    msg: ExecuteMsg,
    sct_reply: Result<TokensResponse, String>,
    outcome: Result<Response, ContractError>,
)
    requires
        before.wf(),
        execute_spec(before, after, env, info, msg, sct_reply, outcome),
    ensures
        after.wf(),
{
    match msg {
        ExecuteMsg::MakePoll { title, description, options } => {
            if outcome is Ok {
                lemma_make_poll_keeps_wf(
                    before,
                    title@,
                    description@,
                    env.block_time,
                    texts(options@),
                );
            }
        },
        ExecuteMsg::CastVote { poll_id, option_idx, sct_viewing_key } => {
            if outcome is Ok {
                lemma_cast_vote_keeps_wf(before, poll_id@, info.sender@, option_idx);
            }
        },
    }
}

/// A command that is refused, for whatever reason, leaves the ledger as it
/// was.
pub proof fn lemma_refused_command_changes_nothing(
    before: Ledger,
    after: Ledger,
    env: Env,
    info: MessageInfo,
    msg: ExecuteMsg,
    sct_reply: Result<TokensResponse, String>,
    outcome: Result<Response, ContractError>,
)
    requires
        execute_spec(before, after, env, info, msg, sct_reply, outcome),
        outcome is Err,
    ensures
        after == before,
{
}

/// In a consistent ledger a poll is opened exactly when its contents pass,
/// no poll has its identifier, and the counter is below its maximum.
pub proof fn lemma_make_poll_succeeds(
    before: Ledger,
    after: Ledger,
    block_time: u64,
    title: Seq<char>,
    description: Seq<char>,
    options: Seq<Seq<char>>,
    outcome: Result<Response, ContractError>,
)
    requires
        before.wf(),
        make_poll_spec(before, after, block_time, title, description, options, outcome),
    ensures
        outcome is Ok <==> poll_contents_check(title, description, options.len()) is Ok
            && !before.polls.dom().contains(poll_id_of(title, options)) && before.poll_count
            != Some(u32::MAX),
{
}

/// In a consistent ledger a vote is cast exactly when the caller holds a
/// credential token, the poll is stored, the option is one of its options,
/// the caller has not voted on it before, and neither the option's counter
/// nor the number of recorded votes is at its maximum.
pub proof fn lemma_cast_vote_succeeds(
    before: Ledger,
    after: Ledger,
    voter: Seq<u8>,
    poll_id: Seq<char>,
    option_idx: u32,
    reply: Result<TokensResponse, String>,
    outcome: Result<Response, ContractError>,
)
    requires
        before.wf(),
        cast_vote_spec(before, after, voter, poll_id, option_idx, reply, outcome),
    ensures
        outcome is Ok <==> credential_check(reply) is Ok && before.polls.dom().contains(poll_id)
            && option_idx < before.polls[poll_id].options.len() && before.vote_of(poll_id, voter)
            is None && before.polls[poll_id].tally[option_idx as int] < u32::MAX
            && before.votes.dom().len() < u32::MAX,
{
}

/// The counter only moves with a poll: a `MakePoll` that succeeds raises it
/// by exactly one, and any other command leaves it as it was.
pub proof fn lemma_poll_count_steps(
    before: Ledger,
    after: Ledger,
    env: Env,
    info: MessageInfo,
    msg: ExecuteMsg,
    sct_reply: Result<TokensResponse, String>,
    outcome: Result<Response, ContractError>,
)
    requires
        execute_spec(before, after, env, info, msg, sct_reply, outcome),
    ensures
        msg is MakePoll && outcome is Ok ==> before.poll_count is Some && after.poll_count == Some(
            (before.poll_count->0 + 1) as u32,
        ) && before.poll_count->0 + 1 <= u32::MAX,
        !(msg is MakePoll && outcome is Ok) ==> after.poll_count == before.poll_count,
{
}

/// A poll that was opened reads back as it was given: the same title,
/// description and options, under the identifier derived from them, with a
/// tally of one zero per option. In a consistent ledger the walk over the
/// polls then brings it.
pub proof fn lemma_opened_poll_reads_back(
    before: Ledger,
    after: Ledger,
    block_time: u64,
    title: Seq<char>,
    description: Seq<char>,
    options: Seq<Seq<char>>,
    outcome: Result<Response, ContractError>,
)
    requires
        make_poll_spec(before, after, block_time, title, description, options, outcome),
        outcome is Ok,
    ensures
        after.polls.dom().contains(poll_id_of(title, options)),
        after.polls[poll_id_of(title, options)] == opened_poll(
            title,
            description,
            block_time,
            options,
        ),
        after.polls[poll_id_of(title, options)].tally.len() == options.len(),
        forall|i: int|
            0 <= i < options.len() ==> (#[trigger] after.polls[poll_id_of(
                title,
                options,
            )].tally[i]) == 0,
        before.wf() ==> exists|pos: int| after.walk_brings(pos, poll_id_of(title, options)),
{
    if before.wf() {
        lemma_make_poll_keeps_wf(before, title, description, block_time, options);
        lemma_walk_lists_every_poll(after);
        assert(after.polls.dom().contains(poll_id_of(title, options)));
    }
}

/// Once a poll has been opened, a second `MakePoll` with the same title and
/// options is refused as a collision, whatever description it comes with, as
/// long as that description is itself acceptable, and the ledger stays as the
/// first command left it.
pub proof fn lemma_same_poll_twice_collides(
    before: Ledger,
    between: Ledger,
    after: Ledger,
    first_time: u64,
    second_time: u64,
    title: Seq<char>,
    first_description: Seq<char>,
    second_description: Seq<char>,
    options: Seq<Seq<char>>,
    first: Result<Response, ContractError>,
    second: Result<Response, ContractError>,
)
    requires
        make_poll_spec(before, between, first_time, title, first_description, options, first),
        first is Ok,
        make_poll_spec(between, after, second_time, title, second_description, options, second),
        0 < second_description.len(),
        encode_utf8(second_description).len() <= MAX_DESCRIPTION_BYTES,
    ensures
        second == Err::<Response, ContractError>(ContractError::PollIdTaken),
        after == between,
{
}

/// A vote, once recorded, stays as it is: no later command changes or
/// removes it.
pub proof fn lemma_votes_are_kept(
    before: Ledger,
    after: Ledger,
    env: Env,
    info: MessageInfo,
    msg: ExecuteMsg,
    sct_reply: Result<TokensResponse, String>,
    outcome: Result<Response, ContractError>,
    poll_id: Seq<char>,
    voter: Seq<u8>,
)
    requires
        before.wf(),
        execute_spec(before, after, env, info, msg, sct_reply, outcome),
        before.vote_of(poll_id, voter) is Some,
    ensures
        after.vote_of(poll_id, voter) == before.vote_of(poll_id, voter),
{
}

} // verus!
