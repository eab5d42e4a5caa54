//! The host's key-value storage and the typed registers and maps that the
//! contract keeps in it.
//!
//! The contract keeps three registers (`secret_toolkit::storage::Item`) and
//! two maps (`secret_toolkit::storage::Keymap`) in the storage that the host
//! lends it. A poll is stored as the row of its six fields, in the keymap's
//! default encoding.
//!
//! Everything in this module is trusted: each function makes one call into
//! `secret_toolkit`, and Verus takes its contract on faith. The contracts
//! hold of any storage, whoever wrote it. They speak of a keymap as the
//! keymap's own code reads it: the keys that have bytes, the entries that
//! decode, the length that is stored, and the keys that the index holds at
//! each position. That these agree with each other is no claim made here; it
//! is part of the ledger's consistency, which the commands establish and keep.
//! A write to one register or keymap leaves the others alone, because no two
//! of them share a storage key.

use crate::ledger::Ledger;
use crate::state::{
    Poll, PollView, POLLS_KEY, POLL_COUNT_KEY, SCT_CODE_HASH_KEY, SCT_CONTRACT_ADDRESS_KEY,
    VOTES_KEY,
};
use secret_cosmwasm_std::{CanonicalAddr, StdError, Storage, Timestamp};
use secret_toolkit::storage::{Item, Keymap};
use vstd::prelude::*;

verus! {

/// The contract's persistent storage, as the host lends it to one command.
///
/// Verus cannot look inside: what the storage holds is described by the
/// functions below.
#[verifier::external_body]
pub struct Store<'a> {
    pub storage: &'a mut dyn Storage,
}

/// The entries of the keymap `polls` that can be read: what `Keymap::get`
/// returns, by key. A key without bytes, or with bytes that do not decode to
/// a row, has no entry.
pub uninterp spec fn stored_polls(store: &Store) -> Map<Seq<char>, PollView>;

/// The keys of the keymap `polls` that have bytes, readable or not: those
/// for which `Keymap::contains` holds.
pub uninterp spec fn stored_poll_keys(store: &Store) -> Set<Seq<char>>;

/// The length that the keymap `polls` has stored, as `Keymap::get_len` reads
/// it: zero where none is stored, `None` where what is stored is no length.
pub uninterp spec fn stored_polls_length(store: &Store) -> Option<u32>;

/// The index of the keymap `polls`: for each position that has an index
/// page, the key that the page holds, or `None` where the page decodes to no
/// key. A walk over the keymap goes by this index.
pub uninterp spec fn stored_poll_index(store: &Store) -> Map<int, Option<Seq<char>>>;

/// The entries of the keymap `voted` that can be read: what `Keymap::get`
/// returns, by vote key.
pub uninterp spec fn stored_votes(store: &Store) -> Map<Seq<char>, u32>;

/// The keys of the keymap `voted` that have bytes, readable or not: those
/// for which `Keymap::contains` holds.
pub uninterp spec fn stored_vote_keys(store: &Store) -> Set<Seq<char>>;

/// The length that the keymap `voted` has stored, as `Keymap::get_len` reads
/// it: zero where none is stored, `None` where what is stored is no length.
pub uninterp spec fn stored_votes_length(store: &Store) -> Option<u32>;

/// The value of the register `poll_count`, if it has one that decodes.
pub uninterp spec fn stored_poll_count(store: &Store) -> Option<u32>;

/// The value of the register `sct_contract_address`, if it has one that
/// decodes.
pub uninterp spec fn stored_sct_contract_address(store: &Store) -> Option<Seq<u8>>;

/// The value of the register `sct_code_hash`, if it has one that decodes.
pub uninterp spec fn stored_sct_code_hash(store: &Store) -> Option<Seq<char>>;

/// The ledger that a store holds.
pub open spec fn ledger(store: &Store) -> Ledger {
    Ledger {
        polls: stored_polls(store),
        poll_keys: stored_poll_keys(store),
        polls_length: stored_polls_length(store),
        poll_index: stored_poll_index(store),
        votes: stored_votes(store),
        vote_keys: stored_vote_keys(store),
        votes_length: stored_votes_length(store),
        poll_count: stored_poll_count(store),
        sct_contract_address: stored_sct_contract_address(store),
        sct_code_hash: stored_sct_code_hash(store),
    }
}

/// Calls `Keymap::contains` on the keymap `polls`.
///
/// Trusted: the answer is whether the key has bytes in the keymap.
#[verifier::external_body]
pub(crate) fn polls_contains(store: &Store, poll_id: &String) -> (found: bool)
    ensures
        found == stored_poll_keys(store).contains(poll_id@),
{
    Keymap::<String, (String, String, String, Timestamp, Vec<String>, Vec<u32>)>::new(
        POLLS_KEY.as_bytes(),
    ).contains(&*store.storage, poll_id)
}

/// Calls `Keymap::get` on the keymap `polls`.
///
/// Trusted: the result is the readable entry for `poll_id`, or `None` if
/// there is none; and a key with a readable entry has bytes.
#[verifier::external_body]
pub(crate) fn polls_get(store: &Store, poll_id: &String) -> (found: Option<Poll>)
    ensures
        match found {
            Some(poll) => stored_polls(store).dom().contains(poll_id@) && poll@ == stored_polls(
                store,
            )[poll_id@] && stored_poll_keys(store).contains(poll_id@),
            None => !stored_polls(store).dom().contains(poll_id@),
        },
{
    Keymap::<String, (String, String, String, Timestamp, Vec<String>, Vec<u32>)>::new(
        POLLS_KEY.as_bytes(),
    ).get(&*store.storage, poll_id).map(
        |row| Poll::from_parts(row.0, row.1, row.2, row.3.nanos(), row.4, row.5),
    )
}

/// Calls `Keymap::get_len` on the keymap `polls`.
///
/// Trusted: the call succeeds exactly when the stored length can be read,
/// and then returns it.
#[verifier::external_body]
pub(crate) fn polls_len(store: &Store) -> (outcome: Result<u32, StdError>)
    ensures
        match outcome {
            Ok(len) => stored_polls_length(store) == Some(len),
            Err(_) => stored_polls_length(store) is None,
        },
{
    Keymap::<String, (String, String, String, Timestamp, Vec<String>, Vec<u32>)>::new(
        POLLS_KEY.as_bytes(),
    ).get_len(&*store.storage)
}

/// Calls `Keymap::insert` on the keymap `polls`.
///
/// For a key without bytes the keymap adds one to its stored length, so
/// such a key is only handed over while that length is below its maximum.
///
/// Trusted: the call succeeds where the key has a readable entry, and where
/// the key has no bytes and the stored length can be read. When it succeeds
/// the ledger is as [`Ledger::with_poll`] says: the entry is `poll`, and for
/// a key that had no bytes the stored length is one more and the index holds
/// the key at the old length, if that position had no page. When it fails
/// nothing was written. A key that has bytes leaves the index as it is.
#[verifier::external_body]
pub(crate) fn polls_insert(store: &mut Store, poll_id: &String, poll: &Poll) -> (outcome: Result<
    (),
    StdError,
>)
    requires
        !stored_poll_keys(old(store)).contains(poll_id@) ==> stored_polls_length(old(store))
            != Some(u32::MAX),
    ensures
        outcome is Ok ==> ledger(final(store)) == ledger(old(store)).with_poll(poll_id@, poll@),
        outcome is Err ==> ledger(final(store)) == ledger(old(store)),
        stored_polls(old(store)).dom().contains(poll_id@) ==> outcome is Ok,
        !stored_poll_keys(old(store)).contains(poll_id@) && stored_polls_length(old(store))
            is Some ==> outcome is Ok,
        stored_poll_keys(old(store)).contains(poll_id@) ==> stored_poll_index(final(store))
            == stored_poll_index(old(store)),
{
    let row = (
        poll.poll_id.clone(),
        poll.title.clone(),
        poll.description.clone(),
        Timestamp::from_nanos(poll.created_at),
        poll.options.clone(),
        poll.tally.clone(),
    );
    Keymap::<String, (String, String, String, Timestamp, Vec<String>, Vec<u32>)>::new(
        POLLS_KEY.as_bytes(),
    ).insert(&mut *store.storage, poll_id, &row)
}

/// The value of an item of a walk over the polls.
pub open spec fn walked_item_view(item: Option<(String, Poll)>) -> Option<(Seq<char>, PollView)> {
    match item {
        Some(entry) => Some((entry.0@, entry.1@)),
        None => None,
    }
}

/// The value of a walk over the polls.
pub open spec fn walk_view(listing: Option<Vec<Option<(String, Poll)>>>) -> Option<
    Seq<Option<(Seq<char>, PollView)>>,
> {
    match listing {
        Some(items) => Some(items@.map_values(|item: Option<(String, Poll)>| walked_item_view(item))),
        None => None,
    }
}

/// Calls `Keymap::iter` on the keymap `polls` and walks the iterator to its
/// end, keeping each item as it came: an entry with its key, or `None` where
/// the item could not be read. The result is `None` where no iterator could
/// be had.
///
/// The iterator goes through the positions below the stored length and
/// looks each up in the index without a test, so the walk is only started
/// where every such position has its page.
///
/// Trusted: the result is the walk that [`Ledger::polls_walk`] spells out:
/// none where the stored length cannot be read, else for each position below
/// it the readable entry of the key that the index holds there.
#[verifier::external_body]
pub(crate) fn polls_iter(store: &Store) -> (listing: Option<Vec<Option<(String, Poll)>>>)
    requires
        ledger(store).walk_runs(),
    ensures
        walk_view(listing) == ledger(store).polls_walk(),
{
    let keymap = Keymap::<String, (String, String, String, Timestamp, Vec<String>, Vec<u32>)>::new(
        POLLS_KEY.as_bytes(),
    );
    let iter = keymap.iter(&*store.storage).ok()?;
    Some(
        iter.map(
            |item|
                item.ok().map(
                    |(key, row)|
                        (key, Poll::from_parts(row.0, row.1, row.2, row.3.nanos(), row.4, row.5)),
                ),
        ).collect(),
    )
}

/// Calls `Keymap::contains` on the keymap `voted`.
///
/// Trusted: the answer is whether the key has bytes in the keymap.
#[verifier::external_body]
pub(crate) fn votes_contains(store: &Store, vote_key: &String) -> (found: bool)
    ensures
        found == stored_vote_keys(store).contains(vote_key@),
{
    Keymap::<String, u32>::new(VOTES_KEY.as_bytes()).contains(&*store.storage, vote_key)
}

/// Calls `Keymap::get` on the keymap `voted`.
///
/// Trusted: the result is the readable entry for `vote_key`, or `None` if
/// there is none; and a key with a readable entry has bytes.
#[verifier::external_body]
pub(crate) fn votes_get(store: &Store, vote_key: &String) -> (found: Option<u32>)
    ensures
        found == (if stored_votes(store).dom().contains(vote_key@) {
            Some(stored_votes(store)[vote_key@])
        } else {
            None
        }),
        found is Some ==> stored_vote_keys(store).contains(vote_key@),
{
    Keymap::<String, u32>::new(VOTES_KEY.as_bytes()).get(&*store.storage, vote_key)
}

/// Calls `Keymap::get_len` on the keymap `voted`.
///
/// Trusted: the call succeeds exactly when the stored length can be read,
/// and then returns it.
#[verifier::external_body]
pub(crate) fn votes_len(store: &Store) -> (outcome: Result<u32, StdError>)
    ensures
        match outcome {
            Ok(len) => stored_votes_length(store) == Some(len),
            Err(_) => stored_votes_length(store) is None,
        },
{
    Keymap::<String, u32>::new(VOTES_KEY.as_bytes()).get_len(&*store.storage)
}

/// Calls `Keymap::insert` on the keymap `voted`.
///
/// For a key without bytes the keymap adds one to its stored length, so
/// such a key is only handed over while that length is below its maximum.
///
/// Trusted: the call succeeds where the key has a readable entry, and where
/// the key has no bytes and the stored length can be read. When it succeeds
/// the ledger is as [`Ledger::with_vote`] says: the entry is `option_idx`,
/// and for a key that had no bytes the stored length is one more. When it
/// fails nothing was written.
#[verifier::external_body]
pub(crate) fn votes_insert(store: &mut Store, vote_key: &String, option_idx: u32) -> (outcome:
    Result<(), StdError>)
    requires
        !stored_vote_keys(old(store)).contains(vote_key@) ==> stored_votes_length(old(store))
            != Some(u32::MAX),
    ensures
        outcome is Ok ==> ledger(final(store)) == ledger(old(store)).with_vote(
            vote_key@,
            option_idx,
        ),
        outcome is Err ==> ledger(final(store)) == ledger(old(store)),
        stored_votes(old(store)).dom().contains(vote_key@) ==> outcome is Ok,
        !stored_vote_keys(old(store)).contains(vote_key@) && stored_votes_length(old(store))
            is Some ==> outcome is Ok,
{
    Keymap::<String, u32>::new(VOTES_KEY.as_bytes()).insert(
        &mut *store.storage,
        vote_key,
        &option_idx,
    )
}

/// Calls `Item::load` on the register `poll_count`.
///
/// Trusted: the call succeeds exactly when the register has a value, and
/// then returns it.
#[verifier::external_body]
pub(crate) fn poll_count_load(store: &Store) -> (outcome: Result<u32, StdError>)
    ensures
        match outcome {
            Ok(count) => stored_poll_count(store) == Some(count),
            Err(_) => stored_poll_count(store) is None,
        },
{
    Item::<u32>::new(POLL_COUNT_KEY.as_bytes()).load(&*store.storage)
}

/// Calls `Item::save` on the register `poll_count`.
///
/// Trusted: the call succeeds, since a number always encodes; the register
/// then holds `count` and the rest of the ledger is as before.
#[verifier::external_body]
pub(crate) fn poll_count_save(store: &mut Store, count: u32) -> (outcome: Result<(), StdError>)
    ensures
        outcome is Ok,
        ledger(final(store)) == (Ledger { poll_count: Some(count), ..ledger(old(store)) }),
{
    Item::<u32>::new(POLL_COUNT_KEY.as_bytes()).save(&mut *store.storage, &count)
}

/// Calls `Item::load` on the register `sct_contract_address`.
///
/// Trusted: the call succeeds exactly when the register has a value, and
/// then returns its bytes.
#[verifier::external_body]
pub(crate) fn sct_contract_address_load(store: &Store) -> (outcome: Result<Vec<u8>, StdError>)
    ensures
        match outcome {
            Ok(address) => stored_sct_contract_address(store) == Some(address@),
            Err(_) => stored_sct_contract_address(store) is None,
        },
{
    Item::<CanonicalAddr>::new(SCT_CONTRACT_ADDRESS_KEY.as_bytes()).load(&*store.storage).map(
        |address| address.as_slice().to_vec(),
    )
}

/// Calls `Item::save` on the register `sct_contract_address`.
///
/// Trusted: the call succeeds, since an address always encodes; the register
/// then holds `address` and the rest of the ledger is as before.
#[verifier::external_body]
pub(crate) fn sct_contract_address_save(store: &mut Store, address: &Vec<u8>) -> (outcome: Result<
    (),
    StdError,
>)
    ensures
        outcome is Ok,
        ledger(final(store)) == (Ledger {
            sct_contract_address: Some(address@),
            ..ledger(old(store))
        }),
{
    Item::<CanonicalAddr>::new(SCT_CONTRACT_ADDRESS_KEY.as_bytes()).save(
        &mut *store.storage,
        &CanonicalAddr::from(address.clone()),
    )
}

/// Calls `Item::load` on the register `sct_code_hash`.
///
/// Trusted: the call succeeds exactly when the register has a value, and
/// then returns it.
#[verifier::external_body]
pub(crate) fn sct_code_hash_load(store: &Store) -> (outcome: Result<String, StdError>)
    ensures
        match outcome {
            Ok(code_hash) => stored_sct_code_hash(store) == Some(code_hash@),
            Err(_) => stored_sct_code_hash(store) is None,
        },
{
    Item::<String>::new(SCT_CODE_HASH_KEY.as_bytes()).load(&*store.storage)
}

/// Calls `Item::save` on the register `sct_code_hash`.
///
/// Trusted: the call succeeds, since a string always encodes; the register
/// then holds `code_hash` and the rest of the ledger is as before.
#[verifier::external_body]
pub(crate) fn sct_code_hash_save(store: &mut Store, code_hash: &String) -> (outcome: Result<
    (),
    StdError,
>)
    ensures
        outcome is Ok,
        ledger(final(store)) == (Ledger { sct_code_hash: Some(code_hash@), ..ledger(old(store)) }),
{
    Item::<String>::new(SCT_CODE_HASH_KEY.as_bytes()).save(&mut *store.storage, code_hash)
}

} // verus!
