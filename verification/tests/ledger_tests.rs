use polling_contract::contract::{
    address_owns_sct, collect_polls, execute, get_user_vote, instantiate, permit_queries, query,
    query_get_my_vote, query_get_num_polls, query_get_polls, sct_contract, tokens_query,
    try_cast_vote, try_make_poll, validate_poll, validate_poll_contents, validate_vote,
    validate_vote_on,
};
use polling_contract::digest::{generate_poll_id, vote_key};
use polling_contract::error::ContractError;
use polling_contract::msg::{
    Env, ExecuteMsg, InstantiateMsg, MessageInfo, QueryAnswer, QueryMsg, QueryWithPermit,
    TokenList, TokensResponse, VerifiedPermit,
};
use polling_contract::receipt::{u32_to_string, Attribute, Response};
use polling_contract::state::{
    Poll, POLLS_KEY, POLL_COUNT_KEY, SCT_CODE_HASH_KEY, SCT_CONTRACT_ADDRESS_KEY, VOTES_KEY,
};
use polling_contract::storage::Store;
use secret_cosmwasm_std::testing::MockStorage;
use secret_cosmwasm_std::{StdError, Storage};

const TEST_POLL_ID: &str = "e5f7d8b33613122b354b0c740dcb3706f616ff74aafa9d2b47ed1a8a3b7895d2";

fn strings(items: &[&str]) -> Vec<String> {
    items.iter().map(|s| s.to_string()).collect()
}

fn holder() -> Result<TokensResponse, String> {
    Ok(TokensResponse { token_list: TokenList { tokens: vec!["token1".to_string()] } })
}

fn env_at(block_time: u64) -> Env {
    Env { block_time }
}

fn sender(bytes: &[u8]) -> MessageInfo {
    MessageInfo { sender: bytes.to_vec() }
}

fn fresh() -> MockStorage {
    let mut storage = MockStorage::default();
    {
        let mut store = Store { storage: &mut storage };
        let msg = InstantiateMsg {
            sct_contract_address: vec![1, 2, 3],
            sct_code_hash: "hash".to_string(),
        };
        assert_eq!(instantiate(&mut store, msg), Ok(Response { attributes: vec![] }));
    }
    storage
}

fn open_test_poll(storage: &mut MockStorage) -> Result<Response, ContractError> {
    let mut store = Store { storage };
    try_make_poll(
        &mut store,
        &env_at(1_000),
        "Test Poll".to_string(),
        "This is a test poll".to_string(),
        strings(&["Option A", "Option B"]),
    )
}

fn vote(
    storage: &mut MockStorage,
    voter: &[u8],
    poll_id: &str,
    option_idx: u32,
    reply: Result<TokensResponse, String>,
) -> Result<Response, ContractError> {
    let mut store = Store { storage };
    try_cast_vote(&mut store, &sender(voter), poll_id.to_string(), option_idx, reply)
}

fn polls_in(storage: &mut MockStorage) -> Vec<Poll> {
    let store = Store { storage };
    match query_get_polls(&store) {
        Ok(QueryAnswer::GetPolls { polls }) => polls,
        other => panic!("unexpected answer {:?}", other),
    }
}

fn count_in(storage: &mut MockStorage) -> u32 {
    let store = Store { storage };
    match query_get_num_polls(&store) {
        Ok(QueryAnswer::GetNumPolls { num_polls }) => num_polls,
        other => panic!("unexpected answer {:?}", other),
    }
}

fn attribute(key: &str, value: &str) -> Attribute {
    Attribute { key: key.to_string(), value: value.to_string() }
}

#[test]
fn poll_id_is_sha256_hex_of_title_and_options() {
    let id = generate_poll_id("Test Poll", &strings(&["Option A", "Option B"]));
    assert_eq!(id, TEST_POLL_ID);
}

#[test]
fn poll_id_of_nothing_is_the_empty_digest() {
    let id = generate_poll_id("", &[]);
    assert_eq!(id, "e3b0c44298fc1c149afbf4c8996fb92427ae41e4649b934ca495991b7852b855");
}

#[test]
fn poll_id_hashes_without_separators() {
    let whole = generate_poll_id("abc", &[]);
    assert_eq!(whole, "ba7816bf8f01cfea414140de5dae2223b00361a396177a9cb410ff61f20015ad");
    assert_eq!(generate_poll_id("a", &strings(&["b", "c"])), whole);
    assert_eq!(generate_poll_id("ab", &strings(&["c"])), whole);
}

#[test]
fn poll_id_depends_on_option_order() {
    let one = generate_poll_id("T", &strings(&["x", "y"]));
    let other = generate_poll_id("T", &strings(&["y", "x"]));
    assert_ne!(one, other);
}

#[test]
fn poll_id_is_64_lowercase_hex_digits() {
    let id = generate_poll_id("Any title", &strings(&["one", "two", "three"]));
    assert_eq!(id.len(), 64);
    assert!(id.chars().all(|c| c.is_ascii_digit() || ('a'..='f').contains(&c)));
}

#[test]
fn poll_id_hashes_utf8_bytes() {
    let id = generate_poll_id("é", &[]);
    let same = generate_poll_id("", &strings(&["é"]));
    assert_eq!(id, same);
    assert_ne!(id, generate_poll_id("e", &[]));
}

#[test]
fn vote_key_joins_poll_id_and_hex_address() {
    let key = vote_key("poll", &vec![0x00, 0x01, 0xab, 0xff, 0x10]);
    assert_eq!(key, "poll_0001abff10");
    assert_eq!(vote_key("", &vec![]), "_");
}

#[test]
fn numbers_are_written_in_decimal() {
    assert_eq!(u32_to_string(0), "0");
    assert_eq!(u32_to_string(7), "7");
    assert_eq!(u32_to_string(10), "10");
    assert_eq!(u32_to_string(1234567890), "1234567890");
    assert_eq!(u32_to_string(u32::MAX), "4294967295");
}

#[test]
fn storage_keys_are_the_fixed_ones() {
    assert_eq!(SCT_CONTRACT_ADDRESS_KEY, "sct_contract_address");
    assert_eq!(SCT_CODE_HASH_KEY, "sct_code_hash");
    assert_eq!(POLL_COUNT_KEY, "poll_count");
    assert_eq!(POLLS_KEY, "polls");
    assert_eq!(VOTES_KEY, "voted");
}

#[test]
fn option_count_boundaries() {
    let options = |n: usize| -> Vec<String> { (0..n).map(|i| format!("o{}", i)).collect() };
    assert_eq!(validate_poll_contents("t", "d", &options(0)), Err(ContractError::InvalidOptionCount));
    assert_eq!(validate_poll_contents("t", "d", &options(1)), Err(ContractError::InvalidOptionCount));
    assert_eq!(validate_poll_contents("t", "d", &options(2)), Ok(()));
    assert_eq!(validate_poll_contents("t", "d", &options(8)), Ok(()));
    assert_eq!(validate_poll_contents("t", "d", &options(9)), Err(ContractError::InvalidOptionCount));
}

#[test]
fn title_length_boundaries() {
    let options = strings(&["a", "b"]);
    assert_eq!(
        validate_poll_contents("", "d", &options),
        Err(ContractError::EmptyTitleOrDescription)
    );
    assert_eq!(validate_poll_contents("t", "d", &options), Ok(()));
    assert_eq!(validate_poll_contents(&"t".repeat(100), "d", &options), Ok(()));
    assert_eq!(
        validate_poll_contents(&"t".repeat(101), "d", &options),
        Err(ContractError::TitleTooLong)
    );
}

#[test]
fn description_length_boundaries() {
    let options = strings(&["a", "b"]);
    assert_eq!(
        validate_poll_contents("t", "", &options),
        Err(ContractError::EmptyTitleOrDescription)
    );
    assert_eq!(validate_poll_contents("t", "d", &options), Ok(()));
    assert_eq!(validate_poll_contents("t", &"d".repeat(500), &options), Ok(()));
    assert_eq!(
        validate_poll_contents("t", &"d".repeat(501), &options),
        Err(ContractError::DescriptionTooLong)
    );
}

#[test]
fn lengths_are_counted_in_bytes() {
    let options = strings(&["a", "b"]);
    // fifty two-byte characters are 100 bytes; one more byte is too many
    let title = "é".repeat(50);
    assert_eq!(validate_poll_contents(&title, "d", &options), Ok(()));
    let longer = format!("{}a", title);
    assert_eq!(validate_poll_contents(&longer, "d", &options), Err(ContractError::TitleTooLong));
    let description = "é".repeat(250);
    assert_eq!(validate_poll_contents("t", &description, &options), Ok(()));
    let longer = format!("{}a", description);
    assert_eq!(
        validate_poll_contents("t", &longer, &options),
        Err(ContractError::DescriptionTooLong)
    );
}

#[test]
fn checks_come_in_order() {
    // too few options wins over an empty title, which wins over lengths
    assert_eq!(
        validate_poll_contents("", &"d".repeat(501), &strings(&["a"])),
        Err(ContractError::InvalidOptionCount)
    );
    assert_eq!(
        validate_poll_contents(&"t".repeat(101), "", &strings(&["a", "b"])),
        Err(ContractError::EmptyTitleOrDescription)
    );
    assert_eq!(
        validate_poll_contents(&"t".repeat(101), &"d".repeat(501), &strings(&["a", "b"])),
        Err(ContractError::TitleTooLong)
    );
}

#[test]
fn validate_poll_sees_a_taken_identifier() {
    let mut storage = fresh();
    open_test_poll(&mut storage).unwrap();
    let store = Store { storage: &mut storage };
    let options = strings(&["Option A", "Option B"]);
    assert_eq!(
        validate_poll("Test Poll", "other", &options, TEST_POLL_ID, &store),
        Err(ContractError::PollIdTaken)
    );
    assert_eq!(validate_poll("Test Poll", "other", &options, "free", &store), Ok(()));
    // the contents are judged before the identifier
    assert_eq!(
        validate_poll("Test Poll", "", &options, TEST_POLL_ID, &store),
        Err(ContractError::EmptyTitleOrDescription)
    );
}

#[test]
fn option_index_boundaries() {
    let mut storage = fresh();
    open_test_poll(&mut storage).unwrap();
    let store = Store { storage: &mut storage };
    assert_eq!(validate_vote(TEST_POLL_ID, 0, &store), Ok(()));
    assert_eq!(validate_vote(TEST_POLL_ID, 1, &store), Ok(()));
    assert_eq!(validate_vote(TEST_POLL_ID, 2, &store), Err(ContractError::InvalidOptionIndex));
    assert_eq!(validate_vote(TEST_POLL_ID, u32::MAX, &store), Err(ContractError::InvalidOptionIndex));
    assert_eq!(validate_vote("missing", 0, &store), Err(ContractError::PollDoesNotExist));
}

#[test]
fn validate_vote_on_a_given_poll() {
    let poll = Poll {
        poll_id: "id".to_string(),
        title: "t".to_string(),
        description: "d".to_string(),
        created_at: 5,
        options: strings(&["a", "b", "c"]),
        tally: vec![0, 0, 0],
    };
    assert_eq!(validate_vote_on(None, 0), Err(ContractError::PollDoesNotExist));
    assert_eq!(validate_vote_on(Some(&poll), 2), Ok(()));
    assert_eq!(validate_vote_on(Some(&poll), 3), Err(ContractError::InvalidOptionIndex));
}

#[test]
fn an_opened_poll_has_a_zero_per_option() {
    let poll = Poll::opened(
        "id".to_string(),
        "t".to_string(),
        "d".to_string(),
        77,
        strings(&["a", "b", "c"]),
    );
    assert_eq!(
        poll,
        Poll {
            poll_id: "id".to_string(),
            title: "t".to_string(),
            description: "d".to_string(),
            created_at: 77,
            options: strings(&["a", "b", "c"]),
            tally: vec![0, 0, 0],
        }
    );
    let empty = Poll::opened(String::new(), String::new(), String::new(), 0, vec![]);
    assert!(empty.tally.is_empty());
}

#[test]
fn counting_a_vote_raises_one_counter_by_one() {
    let poll = Poll {
        poll_id: "id".to_string(),
        title: "t".to_string(),
        description: "d".to_string(),
        created_at: 3,
        options: strings(&["a", "b", "c"]),
        tally: vec![5, u32::MAX - 1, u32::MAX],
    };
    let first = poll.clone().counted(0).unwrap();
    assert_eq!(first.tally, vec![6, u32::MAX - 1, u32::MAX]);
    assert_eq!(first.title, "t");
    assert_eq!(first.options, strings(&["a", "b", "c"]));
    assert_eq!(first.created_at, 3);
    let second = poll.clone().counted(1).unwrap();
    assert_eq!(second.tally, vec![5, u32::MAX, u32::MAX]);
    assert_eq!(poll.clone().counted(2), None);
    assert_eq!(poll.clone().counted(3), None);
    assert_eq!(poll.counted(u32::MAX), None);
}

#[test]
fn credential_verdicts() {
    assert_eq!(address_owns_sct(holder()), Ok(true));
    let none = TokensResponse { token_list: TokenList { tokens: vec![] } };
    assert_eq!(address_owns_sct(Ok(none)), Err(ContractError::NoCredential));
    assert_eq!(
        address_owns_sct(Err("bad key".to_string())),
        Err(ContractError::CredentialQueryFailed("bad key".to_string()))
    );
}

#[test]
fn tokens_query_asks_for_thirty() {
    let question = tokens_query("secret1voter".to_string(), "key".to_string());
    assert_eq!(question.tokens.owner, "secret1voter");
    assert_eq!(question.tokens.viewing_key, "key");
    assert_eq!(question.tokens.limit, Some(30));
}

#[test]
fn every_error_has_its_message() {
    assert_eq!(
        ContractError::InvalidOptionCount.message(),
        "Invalid number of options (min 2, max 8)"
    );
    assert_eq!(
        ContractError::EmptyTitleOrDescription.message(),
        "Title and description cannot be empty"
    );
    assert_eq!(ContractError::TitleTooLong.message(), "Title too long (max 100 chars)");
    assert_eq!(ContractError::DescriptionTooLong.message(), "Description too long (max 500 chars)");
    assert_eq!(
        ContractError::PollIdTaken.message(),
        "Poll ID already taken (same title and options)"
    );
    assert_eq!(ContractError::PollDoesNotExist.message(), "Poll does not exist");
    assert_eq!(ContractError::InvalidOptionIndex.message(), "Invalid option index");
    assert_eq!(ContractError::AlreadyVoted.message(), "You have already voted on this poll");
    assert_eq!(ContractError::NoCredential.message(), "No SCT tokens found for this address");
    assert_eq!(
        ContractError::CredentialQueryFailed("timeout".to_string()).message(),
        "SCT query failed: timeout"
    );
    assert_eq!(
        ContractError::UnexpectedCredentialAnswer.message(),
        "SCT check returned false unexpectedly"
    );
    assert_eq!(ContractError::PollLimitReached.message(), "Poll limit reached");
    assert_eq!(ContractError::VoteLimitReached.message(), "Vote limit reached");
    assert_eq!(
        ContractError::Storage(StdError::generic_err("disk")).message(),
        "Generic error: disk"
    );
}

#[test]
fn instantiate_stores_the_credential_contract() {
    let mut storage = fresh();
    let store = Store { storage: &mut storage };
    assert_eq!(sct_contract(&store), Ok((vec![1, 2, 3], "hash".to_string())));
}

#[test]
fn nothing_can_be_read_before_instantiate() {
    let mut storage = MockStorage::default();
    let store = Store { storage: &mut storage };
    assert!(matches!(sct_contract(&store), Err(ContractError::Storage(_))));
    assert!(matches!(query_get_num_polls(&store), Err(ContractError::Storage(_))));
}

#[test]
fn make_poll_needs_a_counter() {
    let mut storage = MockStorage::default();
    let outcome = open_test_poll(&mut storage);
    assert!(matches!(outcome, Err(ContractError::Storage(_))));
    assert!(polls_in(&mut storage).is_empty());
}

#[test]
fn make_poll_answers_with_its_receipt() {
    let mut storage = fresh();
    let receipt = open_test_poll(&mut storage).unwrap();
    assert_eq!(
        receipt.attributes,
        vec![attribute("action", "make_poll"), attribute("poll_id", TEST_POLL_ID)]
    );
}

#[test]
fn make_poll_reads_back_with_zero_tally() {
    let mut storage = fresh();
    open_test_poll(&mut storage).unwrap();
    let polls = polls_in(&mut storage);
    assert_eq!(
        polls,
        vec![Poll {
            poll_id: TEST_POLL_ID.to_string(),
            title: "Test Poll".to_string(),
            description: "This is a test poll".to_string(),
            created_at: 1_000,
            options: strings(&["Option A", "Option B"]),
            tally: vec![0, 0],
        }]
    );
    assert_eq!(count_in(&mut storage), 1);
}

#[test]
fn make_poll_with_eight_options_has_eight_counters() {
    let mut storage = fresh();
    let options = strings(&["1", "2", "3", "4", "5", "6", "7", "8"]);
    {
        let mut store = Store { storage: &mut storage };
        try_make_poll(&mut store, &env_at(9), "T".to_string(), "D".to_string(), options.clone())
            .unwrap();
    }
    let polls = polls_in(&mut storage);
    assert_eq!(polls.len(), 1);
    assert_eq!(polls[0].options, options);
    assert_eq!(polls[0].tally, vec![0; 8]);
}

#[test]
fn same_title_and_options_collide_whatever_the_description() {
    let mut storage = fresh();
    open_test_poll(&mut storage).unwrap();
    let second = {
        let mut store = Store { storage: &mut storage };
        try_make_poll(
            &mut store,
            &env_at(2_000),
            "Test Poll".to_string(),
            "different description".to_string(),
            strings(&["Option A", "Option B"]),
        )
    };
    assert_eq!(second, Err(ContractError::PollIdTaken));
    assert!(second.unwrap_err().message().contains("Poll ID already taken"));
    assert_eq!(count_in(&mut storage), 1);
    let polls = polls_in(&mut storage);
    assert_eq!(polls.len(), 1);
    assert_eq!(polls[0].description, "This is a test poll");
    assert_eq!(polls[0].created_at, 1_000);
}

#[test]
fn counter_rises_by_one_per_poll_and_not_otherwise() {
    let mut storage = fresh();
    assert_eq!(count_in(&mut storage), 0);
    open_test_poll(&mut storage).unwrap();
    assert_eq!(count_in(&mut storage), 1);
    // a refused poll does not count
    assert!(open_test_poll(&mut storage).is_err());
    assert_eq!(count_in(&mut storage), 1);
    // a vote does not count, refused or not
    vote(&mut storage, b"voter", TEST_POLL_ID, 0, holder()).unwrap();
    assert_eq!(count_in(&mut storage), 1);
    assert!(vote(&mut storage, b"voter", TEST_POLL_ID, 0, holder()).is_err());
    assert_eq!(count_in(&mut storage), 1);
    {
        let mut store = Store { storage: &mut storage };
        try_make_poll(
            &mut store,
            &env_at(3),
            "Another".to_string(),
            "d".to_string(),
            strings(&["a", "b"]),
        )
        .unwrap();
    }
    assert_eq!(count_in(&mut storage), 2);
    assert_eq!(polls_in(&mut storage).len(), 2);
}

#[test]
fn happy_path_counts_the_vote() {
    let mut storage = fresh();
    open_test_poll(&mut storage).unwrap();
    let receipt = vote(&mut storage, b"voter", TEST_POLL_ID, 0, holder()).unwrap();
    assert_eq!(
        receipt.attributes,
        vec![
            attribute("action", "cast_vote"),
            attribute("poll_id", TEST_POLL_ID),
            attribute("option_idx", "0"),
        ]
    );
    let polls = polls_in(&mut storage);
    assert_eq!(polls.len(), 1);
    assert_eq!(polls[0].tally, vec![1, 0]);
    assert_eq!(polls[0].title, "Test Poll");
    assert_eq!(polls[0].options, strings(&["Option A", "Option B"]));
}

#[test]
fn last_option_can_be_voted_for() {
    let mut storage = fresh();
    open_test_poll(&mut storage).unwrap();
    let receipt = vote(&mut storage, b"voter", TEST_POLL_ID, 1, holder()).unwrap();
    assert_eq!(receipt.attributes[2], attribute("option_idx", "1"));
    assert_eq!(polls_in(&mut storage)[0].tally, vec![0, 1]);
    assert_eq!(
        vote(&mut storage, b"other", TEST_POLL_ID, 2, holder()),
        Err(ContractError::InvalidOptionIndex)
    );
    assert_eq!(polls_in(&mut storage)[0].tally, vec![0, 1]);
}

#[test]
fn tally_sums_to_the_votes_cast() {
    let mut storage = fresh();
    open_test_poll(&mut storage).unwrap();
    vote(&mut storage, b"ann", TEST_POLL_ID, 0, holder()).unwrap();
    vote(&mut storage, b"bob", TEST_POLL_ID, 1, holder()).unwrap();
    vote(&mut storage, b"cyd", TEST_POLL_ID, 1, holder()).unwrap();
    assert!(vote(&mut storage, b"bob", TEST_POLL_ID, 0, holder()).is_err());
    let polls = polls_in(&mut storage);
    assert_eq!(polls[0].tally, vec![1, 2]);
    assert_eq!(polls[0].tally.iter().sum::<u32>(), 3);
    assert_eq!(polls[0].tally.len(), polls[0].options.len());
}

#[test]
fn votes_on_one_poll_leave_the_other_alone() {
    let mut storage = fresh();
    open_test_poll(&mut storage).unwrap();
    let other_options = strings(&["x", "y", "z"]);
    let other_id = generate_poll_id("Other", &other_options);
    {
        let mut store = Store { storage: &mut storage };
        try_make_poll(&mut store, &env_at(7), "Other".to_string(), "d".to_string(), other_options)
            .unwrap();
    }
    vote(&mut storage, b"ann", &other_id, 2, holder()).unwrap();
    vote(&mut storage, b"ann", TEST_POLL_ID, 1, holder()).unwrap();
    let polls = polls_in(&mut storage);
    assert_eq!(polls.len(), 2);
    for poll in polls {
        if poll.poll_id == TEST_POLL_ID {
            assert_eq!(poll.tally, vec![0, 1]);
        } else {
            assert_eq!(poll.poll_id, other_id);
            assert_eq!(poll.tally, vec![0, 0, 1]);
        }
    }
}

#[test]
fn no_credential_means_no_vote() {
    let mut storage = fresh();
    open_test_poll(&mut storage).unwrap();
    let refused = vote(&mut storage, b"voter", TEST_POLL_ID, 0, Err("Query failed".to_string()));
    assert_eq!(refused, Err(ContractError::CredentialQueryFailed("Query failed".to_string())));
    assert_eq!(refused.unwrap_err().message(), "SCT query failed: Query failed");
    let empty = TokensResponse { token_list: TokenList { tokens: vec![] } };
    assert_eq!(
        vote(&mut storage, b"voter", TEST_POLL_ID, 0, Ok(empty)),
        Err(ContractError::NoCredential)
    );
    assert_eq!(polls_in(&mut storage)[0].tally, vec![0, 0]);
    let store = Store { storage: &mut storage };
    assert_eq!(get_user_vote(&store, TEST_POLL_ID, &b"voter".to_vec()), Ok(None));
}

#[test]
fn credential_is_judged_before_anything_else() {
    let mut storage = fresh();
    open_test_poll(&mut storage).unwrap();
    vote(&mut storage, b"voter", TEST_POLL_ID, 0, holder()).unwrap();
    // a second vote without credential fails on the credential, not as a double vote
    assert_eq!(
        vote(&mut storage, b"voter", TEST_POLL_ID, 1, Err("no".to_string())),
        Err(ContractError::CredentialQueryFailed("no".to_string()))
    );
    // and so does a vote on a poll that does not exist, or for no option
    assert_eq!(
        vote(&mut storage, b"voter", "missing", 0, Err("no".to_string())),
        Err(ContractError::CredentialQueryFailed("no".to_string()))
    );
    assert_eq!(
        vote(&mut storage, b"new", TEST_POLL_ID, 9, Err("no".to_string())),
        Err(ContractError::CredentialQueryFailed("no".to_string()))
    );
}

#[test]
fn double_vote_is_refused_and_changes_nothing() {
    let mut storage = fresh();
    open_test_poll(&mut storage).unwrap();
    vote(&mut storage, b"voter", TEST_POLL_ID, 0, holder()).unwrap();
    let again = vote(&mut storage, b"voter", TEST_POLL_ID, 1, holder());
    assert_eq!(again, Err(ContractError::AlreadyVoted));
    assert!(again.unwrap_err().message().contains("already voted"));
    assert_eq!(polls_in(&mut storage)[0].tally, vec![1, 0]);
    let store = Store { storage: &mut storage };
    assert_eq!(get_user_vote(&store, TEST_POLL_ID, &b"voter".to_vec()), Ok(Some(0)));
}

#[test]
fn validation_comes_before_the_double_vote_check() {
    let mut storage = fresh();
    open_test_poll(&mut storage).unwrap();
    vote(&mut storage, b"voter", TEST_POLL_ID, 0, holder()).unwrap();
    assert_eq!(
        vote(&mut storage, b"voter", TEST_POLL_ID, 2, holder()),
        Err(ContractError::InvalidOptionIndex)
    );
}

#[test]
fn unknown_poll_is_refused() {
    let mut storage = fresh();
    let poll_id = "deadbeef".repeat(8);
    let refused = vote(&mut storage, b"voter", &poll_id, 0, holder());
    assert_eq!(refused, Err(ContractError::PollDoesNotExist));
    assert_eq!(refused.unwrap_err().message(), "Poll does not exist");
}

#[test]
fn a_full_tally_counter_takes_no_more() {
    let mut storage = fresh();
    open_test_poll(&mut storage).unwrap();
    // the keymap's own format, with a counter at its maximum
    let full = (
        TEST_POLL_ID.to_string(),
        "Test Poll".to_string(),
        "This is a test poll".to_string(),
        secret_cosmwasm_std::Timestamp::from_nanos(1_000),
        strings(&["Option A", "Option B"]),
        vec![u32::MAX, 4u32],
    );
    secret_toolkit::storage::Keymap::<
        String,
        (String, String, String, secret_cosmwasm_std::Timestamp, Vec<String>, Vec<u32>),
    >::new(b"polls")
    .insert(&mut storage, &TEST_POLL_ID.to_string(), &full)
    .unwrap();
    assert_eq!(
        vote(&mut storage, b"voter", TEST_POLL_ID, 0, holder()),
        Err(ContractError::VoteLimitReached)
    );
    assert_eq!(polls_in(&mut storage)[0].tally, vec![u32::MAX, 4]);
    vote(&mut storage, b"voter", TEST_POLL_ID, 1, holder()).unwrap();
    assert_eq!(polls_in(&mut storage)[0].tally, vec![u32::MAX, 5]);
}

#[test]
fn a_full_counter_takes_no_more_polls() {
    let mut storage = fresh();
    secret_toolkit::storage::Item::<u32>::new(b"poll_count").save(&mut storage, &u32::MAX).unwrap();
    assert_eq!(open_test_poll(&mut storage), Err(ContractError::PollLimitReached));
    assert!(polls_in(&mut storage).is_empty());
    assert_eq!(count_in(&mut storage), u32::MAX);
}

#[test]
fn a_full_poll_map_takes_no_more_polls() {
    let mut storage = fresh();
    // the keymap keeps the number of its entries under this key
    storage.set(b"pollslength", &u32::MAX.to_be_bytes());
    assert_eq!(open_test_poll(&mut storage), Err(ContractError::PollLimitReached));
    assert_eq!(count_in(&mut storage), 0);
    storage.set(b"pollslength", &0u32.to_be_bytes());
    assert!(open_test_poll(&mut storage).is_ok());
    assert_eq!(count_in(&mut storage), 1);
}

#[test]
fn a_full_vote_map_takes_no_more_votes() {
    let mut storage = fresh();
    open_test_poll(&mut storage).unwrap();
    storage.set(b"votedlength", &u32::MAX.to_be_bytes());
    assert_eq!(
        vote(&mut storage, b"voter", TEST_POLL_ID, 0, holder()),
        Err(ContractError::VoteLimitReached)
    );
    assert_eq!(polls_in(&mut storage)[0].tally, vec![0, 0]);
    storage.set(b"votedlength", &0u32.to_be_bytes());
    assert!(vote(&mut storage, b"voter", TEST_POLL_ID, 0, holder()).is_ok());
    assert_eq!(polls_in(&mut storage)[0].tally, vec![1, 0]);
}

#[test]
fn an_unreadable_length_is_a_storage_error() {
    let mut storage = fresh();
    storage.set(b"pollslength", &[1, 2, 3]);
    assert!(matches!(open_test_poll(&mut storage), Err(ContractError::Storage(_))));
    assert_eq!(count_in(&mut storage), 0);
    storage.remove(b"pollslength");
    open_test_poll(&mut storage).unwrap();
    storage.set(b"votedlength", &[9]);
    assert!(matches!(
        vote(&mut storage, b"voter", TEST_POLL_ID, 0, holder()),
        Err(ContractError::Storage(_))
    ));
    assert_eq!(polls_in(&mut storage)[0].tally, vec![0, 0]);
    let store = Store { storage: &mut storage };
    assert_eq!(get_user_vote(&store, TEST_POLL_ID, &b"voter".to_vec()), Ok(None));
}

#[test]
fn a_key_with_unreadable_bytes_is_taken_but_holds_no_poll() {
    let mut storage = fresh();
    // the slot of the test poll's key: the namespace, then the key as the keymap encodes it
    let mut slot = b"polls".to_vec();
    slot.extend_from_slice(&(TEST_POLL_ID.len() as u64).to_le_bytes());
    slot.extend_from_slice(TEST_POLL_ID.as_bytes());
    storage.set(&slot, b"x");
    assert_eq!(open_test_poll(&mut storage), Err(ContractError::PollIdTaken));
    assert_eq!(
        vote(&mut storage, b"voter", TEST_POLL_ID, 0, holder()),
        Err(ContractError::PollDoesNotExist)
    );
    assert_eq!(count_in(&mut storage), 0);
    storage.remove(&slot);
    assert!(open_test_poll(&mut storage).is_ok());
    assert_eq!(count_in(&mut storage), 1);
}

#[test]
fn a_refused_command_writes_nothing() {
    let mut storage = fresh();
    open_test_poll(&mut storage).unwrap();
    vote(&mut storage, b"ann", TEST_POLL_ID, 1, holder()).unwrap();
    let kept: Vec<(Vec<u8>, Option<Vec<u8>>)> = [
        &b"pollslength"[..],
        &b"votedlength"[..],
        &b"poll_count"[..],
        &b"sct_code_hash"[..],
        &b"sct_contract_address"[..],
    ]
    .iter()
    .map(|key| (key.to_vec(), storage.get(key)))
    .collect();
    let polls = polls_in(&mut storage);
    assert!(open_test_poll(&mut storage).is_err());
    assert!(vote(&mut storage, b"ann", TEST_POLL_ID, 0, holder()).is_err());
    assert!(vote(&mut storage, b"bob", TEST_POLL_ID, 2, holder()).is_err());
    assert!(vote(&mut storage, b"bob", "missing", 0, holder()).is_err());
    assert!(vote(&mut storage, b"bob", TEST_POLL_ID, 0, Err("no".to_string())).is_err());
    for (key, value) in kept {
        assert_eq!(storage.get(&key), value);
    }
    assert_eq!(polls_in(&mut storage), polls);
    let store = Store { storage: &mut storage };
    assert_eq!(get_user_vote(&store, TEST_POLL_ID, &b"bob".to_vec()), Ok(None));
    assert_eq!(get_user_vote(&store, TEST_POLL_ID, &b"ann".to_vec()), Ok(Some(1)));
}

#[test]
fn stored_lengths_count_the_entries() {
    let mut storage = fresh();
    assert_eq!(storage.get(b"pollslength"), None);
    open_test_poll(&mut storage).unwrap();
    assert_eq!(storage.get(b"pollslength"), Some(1u32.to_be_bytes().to_vec()));
    vote(&mut storage, b"ann", TEST_POLL_ID, 1, holder()).unwrap();
    vote(&mut storage, b"bob", TEST_POLL_ID, 1, holder()).unwrap();
    assert_eq!(storage.get(b"votedlength"), Some(2u32.to_be_bytes().to_vec()));
    // counting a vote rewrites the poll in place
    assert_eq!(storage.get(b"pollslength"), Some(1u32.to_be_bytes().to_vec()));
}

#[test]
fn own_vote_reads_back_and_others_do_not() {
    let mut storage = fresh();
    open_test_poll(&mut storage).unwrap();
    vote(&mut storage, b"voter", TEST_POLL_ID, 0, holder()).unwrap();
    let store = Store { storage: &mut storage };
    assert_eq!(
        query_get_my_vote(&store, &b"voter".to_vec(), TEST_POLL_ID),
        Ok(QueryAnswer::GetMyVote { vote: Some(0) })
    );
    assert_eq!(
        query_get_my_vote(&store, &b"other".to_vec(), TEST_POLL_ID),
        Ok(QueryAnswer::GetMyVote { vote: None })
    );
    assert_eq!(
        query_get_my_vote(&store, &b"voter".to_vec(), "missing"),
        Ok(QueryAnswer::GetMyVote { vote: None })
    );
    assert_eq!(
        permit_queries(
            &store,
            &b"voter".to_vec(),
            QueryWithPermit::GetMyVote { poll_id: TEST_POLL_ID.to_string() }
        ),
        Ok(QueryAnswer::GetMyVote { vote: Some(0) })
    );
}

#[test]
fn query_dispatches_all_three() {
    let mut storage = fresh();
    open_test_poll(&mut storage).unwrap();
    vote(&mut storage, b"voter", TEST_POLL_ID, 1, holder()).unwrap();
    let store = Store { storage: &mut storage };
    assert_eq!(
        query(&store, QueryMsg::GetNumPolls {}),
        Ok(QueryAnswer::GetNumPolls { num_polls: 1 })
    );
    match query(&store, QueryMsg::GetPolls {}) {
        Ok(QueryAnswer::GetPolls { polls }) => {
            assert_eq!(polls.len(), 1);
            assert_eq!(polls[0].poll_id, TEST_POLL_ID);
            assert_eq!(polls[0].tally, vec![0, 1]);
        }
        other => panic!("unexpected answer {:?}", other),
    }
    let with_permit = QueryMsg::WithPermit {
        permit: VerifiedPermit { account: b"voter".to_vec() },
        query: QueryWithPermit::GetMyVote { poll_id: TEST_POLL_ID.to_string() },
    };
    assert_eq!(query(&store, with_permit), Ok(QueryAnswer::GetMyVote { vote: Some(1) }));
    let stranger = QueryMsg::WithPermit {
        permit: VerifiedPermit { account: b"w".to_vec() },
        query: QueryWithPermit::GetMyVote { poll_id: TEST_POLL_ID.to_string() },
    };
    assert_eq!(query(&store, stranger), Ok(QueryAnswer::GetMyVote { vote: None }));
}

#[test]
fn execute_dispatches_both_commands() {
    let mut storage = fresh();
    let mut store = Store { storage: &mut storage };
    let made = execute(
        &mut store,
        &env_at(11),
        &sender(b"creator"),
        ExecuteMsg::MakePoll {
            title: "Test Poll".to_string(),
            description: "This is a test poll".to_string(),
            options: strings(&["Option A", "Option B"]),
        },
        Err("not asked".to_string()),
    );
    assert_eq!(made.unwrap().attributes[1], attribute("poll_id", TEST_POLL_ID));
    let voted = execute(
        &mut store,
        &env_at(12),
        &sender(b"voter"),
        ExecuteMsg::CastVote {
            poll_id: TEST_POLL_ID.to_string(),
            option_idx: 1,
            sct_viewing_key: "valid_key".to_string(),
        },
        holder(),
    );
    assert_eq!(voted.unwrap().attributes[0], attribute("action", "cast_vote"));
    assert_eq!(get_user_vote(&store, TEST_POLL_ID, &b"voter".to_vec()), Ok(Some(1)));
}

#[test]
fn polls_are_listed_in_the_order_they_were_made() {
    let mut storage = fresh();
    for title in ["first", "second", "third"] {
        let mut store = Store { storage: &mut storage };
        try_make_poll(
            &mut store,
            &env_at(1),
            title.to_string(),
            "d".to_string(),
            strings(&["a", "b"]),
        )
        .unwrap();
    }
    let titles: Vec<String> = polls_in(&mut storage).into_iter().map(|p| p.title).collect();
    assert_eq!(titles, strings(&["first", "second", "third"]));
}

#[test]
fn collect_polls_keeps_what_could_be_read() {
    let poll = |title: &str| Poll {
        poll_id: title.to_string(),
        title: title.to_string(),
        description: "d".to_string(),
        created_at: 0,
        options: strings(&["a", "b"]),
        tally: vec![0, 0],
    };
    assert_eq!(collect_polls(None), vec![]);
    assert_eq!(collect_polls(Some(vec![])), vec![]);
    let listing = vec![
        Some(("k1".to_string(), poll("one"))),
        None,
        Some(("k2".to_string(), poll("two"))),
        Some(("k3".to_string(), poll("three"))),
        None,
    ];
    assert_eq!(collect_polls(Some(listing)), vec![poll("one"), poll("two"), poll("three")]);
}

#[test]
fn polls_are_stored_in_the_keymap_format() {
    let mut storage = fresh();
    open_test_poll(&mut storage).unwrap();
    vote(&mut storage, b"voter", TEST_POLL_ID, 1, holder()).unwrap();
    let polls = secret_toolkit::storage::Keymap::<
        String,
        (String, String, String, secret_cosmwasm_std::Timestamp, Vec<String>, Vec<u32>),
    >::new(b"polls");
    let row = polls.get(&storage, &TEST_POLL_ID.to_string()).unwrap();
    assert_eq!(row.0, TEST_POLL_ID);
    assert_eq!(row.1, "Test Poll");
    assert_eq!(row.3.nanos(), 1_000);
    assert_eq!(row.5, vec![0, 1]);
    let votes = secret_toolkit::storage::Keymap::<String, u32>::new(b"voted");
    let key = format!("{}_{}", TEST_POLL_ID, "766f746572");
    assert_eq!(votes.get(&storage, &key), Some(1));
    assert_eq!(votes.get_len(&storage).unwrap(), 1);
    let count = secret_toolkit::storage::Item::<u32>::new(b"poll_count");
    assert_eq!(count.load(&storage).unwrap(), 1);
    assert!(storage.get(b"sct_code_hash").is_some());
    assert!(storage.get(b"sct_contract_address").is_some());
}
