//! The ledger as a mathematical value: what the storage holds, what it means
//! for it to be consistent, and how each command changes it.

use crate::digest::{lemma_vote_key_injective, poll_id_of, vote_key_of};
use crate::state::{opened_poll, tally_has_room, PollView};
use vstd::prelude::*;

verus! {

/// Everything the contract keeps in storage, as its storage types read it.
pub struct Ledger {
    /// The polls that can be read, by identifier.
    pub polls: Map<Seq<char>, PollView>,
    /// The identifiers that have bytes in the polls' keymap.
    pub poll_keys: Set<Seq<char>>,
    /// The length that the polls' keymap has stored, where it can be read.
    pub polls_length: Option<u32>,
    /// The index of the polls' keymap: the key at each position that has a
    /// page, or `None` where the page holds no key.
    pub poll_index: Map<int, Option<Seq<char>>>,
    /// The chosen option of every vote that can be read, by vote key.
    pub votes: Map<Seq<char>, u32>,
    /// The vote keys that have bytes in the votes' keymap.
    pub vote_keys: Set<Seq<char>>,
    /// The length that the votes' keymap has stored, where it can be read.
    pub votes_length: Option<u32>,
    /// The poll counter, once it has been set.
    pub poll_count: Option<u32>,
    /// The canonical address of the credential contract, once it has been set.
    pub sct_contract_address: Option<Seq<u8>>,
    /// The code hash of the credential contract, once it has been set.
    pub sct_code_hash: Option<Seq<char>>,
}

/// The sum of a tally.
pub open spec fn tally_sum(tally: Seq<u32>) -> nat
    decreases tally.len(),
{
    if tally.len() == 0 {
        0
    } else {
        tally_sum(tally.drop_last()) + tally.last() as nat
    }
}

impl Ledger {
    /// The voters whose vote on `poll_id` is recorded.
    pub open spec fn voters_on(self, poll_id: Seq<char>) -> Set<Seq<u8>> {
        Set::new(|voter: Seq<u8>| self.votes.dom().contains(vote_key_of(poll_id, voter)))
    }

    /// The option that `voter` chose on `poll_id`, if their vote is recorded.
    pub open spec fn vote_of(self, poll_id: Seq<char>, voter: Seq<u8>) -> Option<u32> {
        if self.votes.dom().contains(vote_key_of(poll_id, voter)) {
            Some(self.votes[vote_key_of(poll_id, voter)])
        } else {
            None
        }
    }

    /// Whether the polls' keymap has stored the largest length it can.
    pub open spec fn polls_full(self) -> bool {
        self.polls_length == Some(u32::MAX)
    }

    /// Whether the votes' keymap has stored the largest length it can.
    pub open spec fn votes_full(self) -> bool {
        self.votes_length == Some(u32::MAX)
    }

    /// The item that a walk over the polls brings at position `pos`: the
    /// readable entry of the key that the index holds there, if any.
    pub open spec fn walk_item(self, pos: int) -> Option<(Seq<char>, PollView)> {
        match self.poll_index[pos] {
            Some(key) => if self.polls.dom().contains(key) {
                Some((key, self.polls[key]))
            } else {
                None
            },
            None => None,
        }
    }

    /// What a walk over the polls brings: nothing where the stored length
    /// cannot be read, else one item for each position below it.
    pub open spec fn polls_walk(self) -> Option<Seq<Option<(Seq<char>, PollView)>>> {
        match self.polls_length {
            Some(len) => Some(Seq::new(len as nat, |pos: int| self.walk_item(pos))),
            None => None,
        }
    }

    /// Whether a walk over the polls brings the stored poll `key` at
    /// position `pos`.
    pub open spec fn walk_brings(self, pos: int, key: Seq<char>) -> bool {
        &&& self.polls_walk() is Some
        &&& 0 <= pos < self.polls_walk()->0.len()
        &&& self.polls_walk()->0[pos] == Some((key, self.polls[key]))
    }

    /// Whether a walk over the polls finds an index page at every position
    /// it visits.
    pub open spec fn walk_runs(self) -> bool {
        self.polls_length matches Some(len) ==> forall|pos: int|
            0 <= pos < len ==> #[trigger] self.poll_index.dom().contains(pos)
    }

    /// The ledger after the polls' keymap has taken `poll` under `key`. A
    /// key that has bytes keeps its place. A key that has none is added: the
    /// stored length grows by one, and the index holds the key at the old
    /// length unless a page was there already.
    pub open spec fn with_poll(self, key: Seq<char>, poll: PollView) -> Ledger
        recommends
            self.poll_keys.contains(key) || (self.polls_length matches Some(len) && len < u32::MAX),
    {
        if self.poll_keys.contains(key) {
            Ledger { polls: self.polls.insert(key, poll), ..self }
        } else {
            let at = self.polls_length->0 as int;
            Ledger {
                polls: self.polls.insert(key, poll),
                poll_keys: self.poll_keys.insert(key),
                polls_length: Some((at + 1) as u32),
                poll_index: if self.poll_index.dom().contains(at) {
                    self.poll_index
                } else {
                    self.poll_index.insert(at, Some(key))
                },
                ..self
            }
        }
    }

    /// The ledger after the votes' keymap has taken `option_idx` under
    /// `key`. A key that has bytes keeps its place; for one that has none the
    /// stored length grows by one.
    pub open spec fn with_vote(self, key: Seq<char>, option_idx: u32) -> Ledger
        recommends
            self.vote_keys.contains(key) || (self.votes_length matches Some(len) && len < u32::MAX),
    {
        if self.vote_keys.contains(key) {
            Ledger { votes: self.votes.insert(key, option_idx), ..self }
        } else {
            Ledger {
                votes: self.votes.insert(key, option_idx),
                vote_keys: self.vote_keys.insert(key),
                votes_length: Some((self.votes_length->0 + 1) as u32),
                ..self
            }
        }
    }

    /// Every stored poll is well formed and stored under its own identifier.
    pub open spec fn polls_wf(self) -> bool {
        forall|poll_id: Seq<char>| #[trigger]
            self.polls.dom().contains(poll_id) ==> self.polls[poll_id].poll_id == poll_id
                && self.polls[poll_id].wf()
    }

    /// Every recorded vote is on a stored poll and for one of its options.
    pub open spec fn votes_wf(self) -> bool {
        forall|poll_id: Seq<char>, voter: Seq<u8>|
            self.votes.dom().contains(#[trigger] vote_key_of(poll_id, voter))
                ==> self.polls.dom().contains(poll_id) && self.votes[vote_key_of(poll_id, voter)]
                < self.polls[poll_id].options.len()
    }

    /// The counter is the number of stored polls.
    pub open spec fn count_wf(self) -> bool {
        &&& self.polls.dom().finite()
        &&& self.poll_count matches Some(count)
        &&& count == self.polls.dom().len()
    }

    /// Each tally sums to the number of votes recorded for its poll.
    pub open spec fn tallies_wf(self) -> bool {
        forall|poll_id: Seq<char>| #[trigger]
            self.polls.dom().contains(poll_id) ==> self.voters_on(poll_id).finite() && tally_sum(
                self.polls[poll_id].tally,
            ) == self.voters_on(poll_id).len()
    }

    /// Both keymaps are in order: every key that has bytes has a readable
    /// entry, and the stored length is the number of entries.
    pub open spec fn keymaps_wf(self) -> bool {
        &&& self.poll_keys == self.polls.dom()
        &&& self.polls.dom().finite()
        &&& self.polls_length matches Some(polls)
        &&& polls == self.polls.dom().len()
        &&& self.vote_keys == self.votes.dom()
        &&& self.votes.dom().finite()
        &&& self.votes_length matches Some(votes)
        &&& votes == self.votes.dom().len()
    }

    /// Whether the index holds `key` at position `pos`, below the stored
    /// length.
    pub open spec fn indexed_at(self, pos: int, key: Seq<char>) -> bool {
        0 <= pos < self.polls_length->0 && self.poll_index[pos] == Some(key)
    }

    /// The index of the polls is in order: it has a page exactly for the
    /// positions below the stored length, each page holds the key of a stored
    /// poll, no two pages hold the same key, and every stored poll has its
    /// page.
    pub open spec fn index_wf(self) -> bool {
        &&& self.polls_length is Some
        &&& forall|pos: int| #[trigger]
            self.poll_index.dom().contains(pos) <==> 0 <= pos < self.polls_length->0
        &&& forall|pos: int|
            0 <= pos < self.polls_length->0 ==> (#[trigger] self.poll_index[pos]) is Some
                && self.polls.dom().contains(self.poll_index[pos]->0)
        &&& forall|pos: int, other: int|
            0 <= pos < other < self.polls_length->0 ==> #[trigger] self.poll_index[pos]
                != #[trigger] self.poll_index[other]
        &&& forall|key: Seq<char>| #[trigger]
            self.polls.dom().contains(key) ==> exists|pos: int| self.indexed_at(pos, key)
    }

    /// The ledger is consistent.
    pub open spec fn wf(self) -> bool {
        &&& self.polls_wf()
        &&& self.votes_wf()
        &&& self.count_wf()
        &&& self.tallies_wf()
        &&& self.keymaps_wf()
        &&& self.index_wf()
    }

    /// The ledger after a new poll has been stored and counted.
    pub open spec fn after_make_poll(self, poll: PollView) -> Ledger
        recommends
            self.poll_count is Some,
            !self.poll_keys.contains(poll.poll_id),
            self.polls_length is Some,
    {
        Ledger {
            poll_count: Some((self.poll_count->0 + 1) as u32),
            ..self.with_poll(poll.poll_id, poll)
        }
    }

    /// The ledger after `voter` has voted for option `option_idx` of `poll_id`.
    pub open spec fn after_cast_vote(self, poll_id: Seq<char>, voter: Seq<u8>, option_idx: u32) -> Ledger
        recommends
            self.polls.dom().contains(poll_id),
            tally_has_room(self.polls[poll_id].tally, option_idx),
    {
        self.with_vote(vote_key_of(poll_id, voter), option_idx).with_poll(
            poll_id,
            self.polls[poll_id].counted(option_idx),
        )
    }
}

proof fn lemma_tally_sum_zero(tally: Seq<u32>)
    requires
        forall|i: int| 0 <= i < tally.len() ==> tally[i] == 0,
    ensures
        tally_sum(tally) == 0,
    decreases tally.len(),
{
    if tally.len() > 0 {
        lemma_tally_sum_zero(tally.drop_last());
    }
}

proof fn lemma_tally_sum_update(tally: Seq<u32>, at: int, value: u32)
    requires
        0 <= at < tally.len(),
    ensures
        tally_sum(tally.update(at, value)) == tally_sum(tally) - tally[at] + value,
    decreases tally.len(),
{
    let updated = tally.update(at, value);
    if at == tally.len() - 1 {
        assert(updated.drop_last() =~= tally.drop_last());
    } else {
        assert(updated.drop_last() =~= tally.drop_last().update(at, value));
        lemma_tally_sum_update(tally.drop_last(), at, value);
    }
}

/// A ledger without polls and votes, with nothing in the index, both stored
/// lengths zero and the counter zero, is consistent: this is the ledger that
/// setting the contract up leaves in a storage that holds nothing else.
pub proof fn lemma_fresh_ledger_wf(fresh: Ledger)
    requires
        fresh.polls == Map::<Seq<char>, PollView>::empty(),
        fresh.poll_keys == Set::<Seq<char>>::empty(),
        fresh.polls_length == Some(0u32),
        fresh.poll_index.dom() == Set::<int>::empty(),
        fresh.votes == Map::<Seq<char>, u32>::empty(),
        fresh.vote_keys == Set::<Seq<char>>::empty(),
        fresh.votes_length == Some(0u32),
        fresh.poll_count == Some(0u32),
    ensures
        fresh.wf(),
{
    assert(fresh.poll_keys =~= fresh.polls.dom());
    assert(fresh.vote_keys =~= fresh.votes.dom());
}

/// Opening a poll keeps the ledger consistent: the new poll is well formed
/// and has no votes, the counter and the stored length still count the
/// polls, the index holds the new poll at its end, and nothing that was
/// stored before changes.
pub proof fn lemma_make_poll_keeps_wf(
    before: Ledger,
    title: Seq<char>,
    description: Seq<char>,
    created_at: u64,
    options: Seq<Seq<char>>,
)
    requires
        before.wf(),
        !before.poll_keys.contains(poll_id_of(title, options)),
        before.poll_count->0 < u32::MAX,
    ensures
        before.after_make_poll(opened_poll(title, description, created_at, options)).wf(),
{
    let poll = opened_poll(title, description, created_at, options);
    let key = poll.poll_id;
    let after = before.after_make_poll(poll);
    let at = before.polls_length->0 as int;
    assert(!before.polls.dom().contains(key));
    assert(!before.poll_index.dom().contains(at));
    assert(after.polls.dom() =~= before.polls.dom().insert(key));
    assert(after.poll_keys =~= after.polls.dom());
    assert(after.polls_wf());
    assert(after.votes_wf());
    assert(after.count_wf());
    assert(after.keymaps_wf());
    assert forall|poll_id: Seq<char>| #[trigger]
        after.polls.dom().contains(poll_id) implies after.voters_on(poll_id).finite() && tally_sum(
        after.polls[poll_id].tally,
    ) == after.voters_on(poll_id).len() by {
        assert(after.voters_on(poll_id) =~= before.voters_on(poll_id));
        if poll_id == key {
            assert(before.voters_on(poll_id) =~= Set::<Seq<u8>>::empty());
            lemma_tally_sum_zero(poll.tally);
        }
    }
    assert(after.index_wf()) by {
        assert(after.polls_length == Some((at + 1) as u32));
        assert(after.poll_index == before.poll_index.insert(at, Some(key)));
        assert forall|pos: int| #[trigger]
            after.poll_index.dom().contains(pos) <==> 0 <= pos < after.polls_length->0 by {
            assert(before.poll_index.dom().contains(pos) <==> 0 <= pos < at);
        }
        assert forall|pos: int| 0 <= pos < after.polls_length->0 implies (
        #[trigger] after.poll_index[pos]) is Some && after.polls.dom().contains(
            after.poll_index[pos]->0,
        ) by {
            if pos < at {
                assert(before.poll_index[pos] is Some);
            }
        }
        assert forall|pos: int, other: int|
            0 <= pos < other < after.polls_length->0 implies #[trigger] after.poll_index[pos]
            != #[trigger] after.poll_index[other] by {
            assert(before.poll_index[pos] is Some);
            if other < at {
                assert(before.poll_index[pos] != before.poll_index[other]);
            }
        }
        assert forall|other: Seq<char>| #[trigger]
            after.polls.dom().contains(other) implies exists|pos: int|
            after.indexed_at(pos, other) by {
            if other == key {
                assert(after.indexed_at(at, other));
            } else {
                let pos = choose|pos: int| before.indexed_at(pos, other);
                assert(after.indexed_at(pos, other));
            }
        }
    }
}

/// Casting a vote keeps the ledger consistent: the vote is on a stored poll
/// and for one of its options, the poll's tally counts exactly one vote
/// more, the votes' stored length counts the vote, and the other polls and
/// votes are as before.
pub proof fn lemma_cast_vote_keeps_wf(
    before: Ledger,
    poll_id: Seq<char>,
    voter: Seq<u8>,
    option_idx: u32,
)
    requires
        before.wf(),
        before.polls.dom().contains(poll_id),
        option_idx < before.polls[poll_id].options.len(),
        !before.vote_keys.contains(vote_key_of(poll_id, voter)),
        before.polls[poll_id].tally[option_idx as int] < u32::MAX,
        !before.votes_full(),
    ensures
        before.after_cast_vote(poll_id, voter, option_idx).wf(),
{
    let after = before.after_cast_vote(poll_id, voter, option_idx);
    let key = vote_key_of(poll_id, voter);
    let tally = before.polls[poll_id].tally;
    assert(before.poll_keys.contains(poll_id));
    assert(!before.votes.dom().contains(key));
    assert(after.polls.dom() =~= before.polls.dom());
    assert(after.votes.dom() =~= before.votes.dom().insert(key));
    assert(after.vote_keys =~= after.votes.dom());
    assert(after.poll_index == before.poll_index);
    assert(after.polls_wf());
    assert forall|other: Seq<char>, who: Seq<u8>|
        after.votes.dom().contains(#[trigger] vote_key_of(other, who)) implies after.polls.dom().contains(
        other,
    ) && after.votes[vote_key_of(other, who)] < after.polls[other].options.len() by {
        if vote_key_of(other, who) == key {
            lemma_vote_key_injective(other, who, poll_id, voter);
        }
    }
    assert(after.count_wf());
    assert(after.keymaps_wf());
    assert forall|other: Seq<char>| #[trigger]
        after.polls.dom().contains(other) implies after.voters_on(other).finite() && tally_sum(
        after.polls[other].tally,
    ) == after.voters_on(other).len() by {
        if other == poll_id {
            assert forall|who: Seq<u8>|
                after.voters_on(other).contains(who) == before.voters_on(other).insert(
                    voter,
                ).contains(who) by {
                if vote_key_of(other, who) == key {
                    lemma_vote_key_injective(other, who, poll_id, voter);
                }
            }
            assert(after.voters_on(other) =~= before.voters_on(other).insert(voter));
            lemma_tally_sum_update(tally, option_idx as int, (tally[option_idx as int] + 1) as u32);
        } else {
            assert forall|who: Seq<u8>|
                after.voters_on(other).contains(who) == before.voters_on(other).contains(who) by {
                if vote_key_of(other, who) == key {
                    lemma_vote_key_injective(other, who, poll_id, voter);
                }
            }
            assert(after.voters_on(other) =~= before.voters_on(other));
        }
    }
    assert(after.index_wf()) by {
        assert forall|other: Seq<char>| #[trigger]
            after.polls.dom().contains(other) implies exists|pos: int|
            after.indexed_at(pos, other) by {
            let pos = choose|pos: int| before.indexed_at(pos, other);
            assert(after.indexed_at(pos, other));
        }
    }
}

/// In a consistent ledger a walk over the polls runs, reads every item, and
/// brings every stored poll exactly once: it has as many items as there are
/// polls, each item is a stored poll under its key, no two items are the
/// same, and each stored poll is the item at some position.
pub proof fn lemma_walk_lists_every_poll(held: Ledger)
    requires
        held.wf(),
    ensures
        held.walk_runs(),
        held.polls_walk() is Some,
        held.polls_walk()->0.len() == held.polls.dom().len(),
        forall|pos: int|
            0 <= pos < held.polls.dom().len() ==> (#[trigger] held.poll_index[pos]) is Some
                && held.polls.dom().contains(held.poll_index[pos]->0) && held.walk_brings(
                pos,
                held.poll_index[pos]->0,
            ),
        forall|pos: int, other: int|
            0 <= pos < other < held.polls.dom().len() ==> (#[trigger] held.polls_walk()->0[pos]) != (
            #[trigger] held.polls_walk()->0[other]),
        forall|key: Seq<char>| #[trigger]
            held.polls.dom().contains(key) ==> exists|pos: int| held.walk_brings(pos, key),
{
    let items = held.polls_walk()->0;
    assert forall|pos: int| 0 <= pos < held.polls.dom().len() implies (
    #[trigger] held.poll_index[pos]) is Some && held.polls.dom().contains(held.poll_index[pos]->0)
        && held.walk_brings(pos, held.poll_index[pos]->0) by {
        assert(held.poll_index[pos] is Some);
    }
    assert forall|pos: int, other: int| 0 <= pos < other < held.polls.dom().len() implies (
    #[trigger] items[pos]) != (#[trigger] items[other]) by {
        assert(held.poll_index[pos] is Some);
        assert(held.poll_index[other] is Some);
        assert(held.poll_index[pos] != held.poll_index[other]);
    }
    assert forall|key: Seq<char>| #[trigger] held.polls.dom().contains(key) implies exists|pos: int|
        held.walk_brings(pos, key) by {
        let pos = choose|pos: int| held.indexed_at(pos, key);
        assert(held.walk_brings(pos, key));
    }
}

/// In a consistent ledger a voter has at most one vote on a poll, and it is
/// on a stored poll and for one of its options: the vote of a voter on a
/// poll is one value, found under a key that no other poll and voter share.
pub proof fn lemma_one_vote_per_voter(
    held: Ledger,
    poll_id: Seq<char>,
    voter: Seq<u8>,
    other_poll_id: Seq<char>,
    other_voter: Seq<u8>,
)
    requires
        held.wf(),
    ensures
        held.vote_of(poll_id, voter) matches Some(option_idx) ==> held.polls.dom().contains(poll_id)
            && option_idx < held.polls[poll_id].options.len(),
        vote_key_of(poll_id, voter) == vote_key_of(other_poll_id, other_voter) ==> poll_id
            == other_poll_id && voter == other_voter,
{
    if vote_key_of(poll_id, voter) == vote_key_of(other_poll_id, other_voter) {
        lemma_vote_key_injective(poll_id, voter, other_poll_id, other_voter);
    }
}

} // verus!
