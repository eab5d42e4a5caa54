//! The records that the contract keeps, and their mathematical views.

use crate::digest::{poll_id_of, texts};
use vstd::prelude::*;

verus! {

/// Storage key of the register that holds the credential contract's address.
pub const SCT_CONTRACT_ADDRESS_KEY: &'static str = "sct_contract_address";

/// Storage key of the register that holds the credential contract's code hash.
pub const SCT_CODE_HASH_KEY: &'static str = "sct_code_hash";

/// Storage namespace of the map from poll identifier to poll.
pub const POLLS_KEY: &'static str = "polls";

/// Storage key of the register that counts the polls.
pub const POLL_COUNT_KEY: &'static str = "poll_count";

/// Storage namespace of the map from vote key to chosen option.
pub const VOTES_KEY: &'static str = "voted";

/// Storage namespace under which the permit validator keeps revoked permits.
pub const REVOKED_PERMITS_KEY: &'static str = "revoked_permits";

/// A poll: what is asked, when, and how the votes stand.
#[derive(Clone, Debug, PartialEq, Eq)]
pub struct Poll {
    /// Hex digest of the title and options; the poll's key in storage.
    pub poll_id: String,
    pub title: String,
    pub description: String,
    /// Block time at creation, in nanoseconds since the epoch.
    pub created_at: u64,
    pub options: Vec<String>,
    /// Votes per option, in the order of `options`.
    pub tally: Vec<u32>,
}

/// The mathematical value of a [`Poll`].
pub struct PollView {
    pub poll_id: Seq<char>,
    pub title: Seq<char>,
    pub description: Seq<char>,
    pub created_at: u64,
    pub options: Seq<Seq<char>>,
    pub tally: Seq<u32>,
}

impl PollView {
    /// A poll is well formed when it counts votes for exactly its options
    /// and is identified by the digest of its title and options.
    pub open spec fn wf(self) -> bool {
        &&& self.tally.len() == self.options.len()
        &&& self.poll_id == poll_id_of(self.title, self.options)
    }
}

impl View for Poll {
    type V = PollView;

    open spec fn view(&self) -> PollView {
        PollView {
            poll_id: self.poll_id@,
            title: self.title@,
            description: self.description@,
            created_at: self.created_at,
            options: texts(self.options@),
            tally: self.tally@,
        }
    }
}

/// A poll as it is when it has just been opened: no votes yet.
pub open spec fn opened_poll(
    title: Seq<char>,
    description: Seq<char>,
    created_at: u64,
    options: Seq<Seq<char>>,
) -> PollView {
    PollView {
        poll_id: poll_id_of(title, options),
        title,
        description,
        created_at,
        options,
        tally: Seq::new(options.len(), |i: int| 0u32),
    }
}

/// Whether a tally can count one more vote for `option_idx`: it has a
/// counter for that option, and the counter is below its maximum.
pub open spec fn tally_has_room(tally: Seq<u32>, option_idx: u32) -> bool {
    option_idx < tally.len() && tally[option_idx as int] < u32::MAX
}

impl PollView {
    /// The poll with one more vote for `option_idx`.
    pub open spec fn counted(self, option_idx: u32) -> PollView
        recommends
            tally_has_room(self.tally, option_idx),
    {
        PollView {
            tally: self.tally.update(
                option_idx as int,
                (self.tally[option_idx as int] + 1) as u32,
            ),
            ..self
        }
    }
}

impl Poll {
    /// A new poll under the given identifier, with a tally of one zero per
    /// option.
    pub fn opened(
        poll_id: String,
        title: String,
        description: String,
        created_at: u64,
        options: Vec<String>,
    ) -> (poll: Poll)
        ensures
            poll@ == (PollView {
                poll_id: poll_id@,
                title: title@,
                description: description@,
                created_at,
                options: texts(options@),
                tally: Seq::new(options@.len(), |i: int| 0u32),
            }),
    {
        let mut tally: Vec<u32> = Vec::new();
        while tally.len() < options.len()
            invariant
                tally@.len() <= options@.len(),
                tally@ == Seq::new(tally@.len(), |i: int| 0u32),
            decreases options@.len() - tally@.len(),
        {
            tally.push(0);
            assert(tally@ =~= Seq::new(tally@.len(), |i: int| 0u32));
        }
        Poll { poll_id, title, description, created_at, options, tally }
    }

    /// The poll with one more vote for `option_idx`, or `None` where its
    /// tally has no room for the vote.
    pub fn counted(self, option_idx: u32) -> (outcome: Option<Poll>)
        ensures
            outcome matches Some(poll) ==> poll@ == self@.counted(option_idx),
            outcome is Some <==> tally_has_room(self@.tally, option_idx),
    {
        let slot = option_idx as usize;
        if slot >= self.tally.len() || self.tally[slot] == u32::MAX {
            return None;
        }
        let mut tally = self.tally;
        let votes = tally[slot] + 1;
        tally.set(slot, votes);
        Some(
            Poll {
                poll_id: self.poll_id,
                title: self.title,
                description: self.description,
                created_at: self.created_at,
                options: self.options,
                tally,
            },
        )
    }

    /// Puts a poll together from its six parts.
    pub fn from_parts(
        poll_id: String,
        title: String,
        description: String,
        created_at: u64,
        options: Vec<String>,
        tally: Vec<u32>,
    ) -> (poll: Poll)
        ensures
            poll.poll_id == poll_id,
            poll.title == title,
            poll.description == description,
            poll.created_at == created_at,
            poll.options == options,
            poll.tally == tally,
    {
        Poll { poll_id, title, description, created_at, options, tally }
    }
}

} // verus!
