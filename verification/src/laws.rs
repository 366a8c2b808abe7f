//! What holds of a ledger whatever operations it has seen.
//!
//! The two operations are described here as values, so that a history is a
//! sequence of them and a law can speak of every history at once.

use vstd::prelude::*;
use crate::address::{derives_to, voter_record_address_of};
use crate::error::VotingError;
use crate::ledger::{count_votes, LedgerView, VoteEntryView};
use crate::poll::{validation_error, OptionsView};

verus! {

/// One request to the ledger, by whoever submits it.
pub enum Operation {
    /// `creator` asks to register a poll under `poll_id`.
    CreatePoll {
        creator: Seq<u8>,
        poll_id: u64,
        description: Seq<char>,
        options: Seq<OptionsView>,
    },
    /// `voter` asks to vote for an option of the poll at `poll_address`.
    CastVote { voter: Seq<u8>, poll_address: Seq<u8>, option_index: u8 },
}

impl LedgerView {
    /// Whether the ledger accepts `op`.
    pub open spec fn accepts(self, op: Operation) -> bool {
        match op {
            Operation::CreatePoll { creator, poll_id, description, options } => {
                self.create_poll_result(creator, poll_id, description, options) is Ok
            },
            Operation::CastVote { voter, poll_address, option_index } => {
                self.cast_vote_result(voter, poll_address, option_index) is Ok
            },
        }
    }

    /// The ledger after `op`, accepted or not.
    pub open spec fn apply(self, op: Operation) -> LedgerView {
        match op {
            Operation::CreatePoll { creator, poll_id, description, options } => {
                self.after_create_poll(creator, poll_id, description, options)
            },
            Operation::CastVote { voter, poll_address, option_index } => {
                self.after_cast_vote(voter, poll_address, option_index)
            },
        }
    }

    /// The ledger after all of `ops`, in order.
    pub open spec fn run(self, ops: Seq<Operation>) -> LedgerView
        decreases ops.len(),
    {
        if ops.len() == 0 {
            self
        } else {
            self.run(ops.drop_last()).apply(ops.last())
        }
    }

    /// No voter has two records for one poll.
    pub open spec fn one_record_per_voter_and_poll(self) -> bool {
        forall|k: int, l: int|
            0 <= k < l < self.records.len() ==> !((#[trigger] self.records[k]).record.voter == (
            #[trigger] self.records[l]).record.voter && self.records[k].record.poll
                == self.records[l].record.poll)
    }
}

/// The identities that have a record for the poll at `poll_address`.
pub open spec fn voters_of(records: Seq<VoteEntryView>, poll_address: Seq<u8>) -> Set<Seq<u8>> {
    Set::new(
        |voter: Seq<u8>|
            exists|k: int|
                0 <= k < records.len() && (#[trigger] records[k]).record.poll == poll_address
                    && records[k].record.voter == voter,
    )
}

/// One operation keeps a consistent ledger consistent, and keeps every
/// record at its derived address if every record was there before.
pub proof fn law_operation_keeps_consistency(s: LedgerView, op: Operation)
    requires
        s.wf(),
    ensures
        s.apply(op).wf(),
        s.at_derived_addresses() ==> s.apply(op).at_derived_addresses(),
        !s.accepts(op) ==> s.apply(op) == s,
{
    match op {
        Operation::CreatePoll { creator, poll_id, description, options } => {
            if let Ok(address) = s.create_poll_result(creator, poll_id, description, options) {
                let fresh = crate::poll::PollView::fresh(poll_id, creator, description, options);
                crate::poll::lemma_fresh_within_bounds(fresh);
                crate::poll::lemma_sum_votes_zero(options);
                s.lemma_with_poll_wf(address, fresh);
            }
        },
        Operation::CastVote { voter, poll_address, option_index } => {
            if let Ok(address) = s.cast_vote_result(voter, poll_address, option_index) {
                s.lemma_with_vote_wf(address, voter, poll_address, option_index);
            }
        },
    }
}

/// Consistency survives every history: after any sequence of operations no
/// address holds two records, every poll is within its bounds, every voter
/// record names an option of an existing poll, and the counters of every poll
/// add up to the number of its voter records.
pub proof fn law_history_keeps_consistency(s: LedgerView, ops: Seq<Operation>)
    requires
        s.wf(),
    ensures
        s.run(ops).wf(),
        s.at_derived_addresses() ==> s.run(ops).at_derived_addresses(),
    decreases ops.len(),
{
    if ops.len() > 0 {
        law_history_keeps_consistency(s, ops.drop_last());
        law_operation_keeps_consistency(s.run(ops.drop_last()), ops.last());
    }
}

/// The ledger only grows: a record that exists stays at its address through
/// every history, and the ledger stays with its program.
pub proof fn law_records_stay(s: LedgerView, ops: Seq<Operation>, address: Seq<u8>)
    ensures
        s.run(ops).program_id == s.program_id,
        s.has_poll(address) ==> s.run(ops).has_poll(address),
        s.has_record(address) ==> s.run(ops).has_record(address),
    decreases ops.len(),
{
    if ops.len() > 0 {
        law_records_stay(s, ops.drop_last(), address);
        let before = s.run(ops.drop_last());
        let after = before.apply(ops.last());
        if before.has_poll(address) {
            let i = before.poll_index(address);
            assert(after.polls[i].address == address);
        }
        if before.has_record(address) {
            let k = before.record_index(address);
            assert(after.records[k].address == address);
        }
    }
}

/// A creator can register a poll under an identifier at most once. After one
/// accepted request, and whatever happened since, a second request by the same
/// creator under the same identifier is refused and changes nothing, the first
/// poll included; where its description and options are within bounds the
/// reason given is the collision.
pub proof fn law_poll_created_once(
    s: LedgerView,
    creator: Seq<u8>,
    poll_id: u64,
    description: Seq<char>,
    options: Seq<OptionsView>,
    since: Seq<Operation>,
    second_description: Seq<char>,
    second_options: Seq<OptionsView>,
)
    requires
        s.create_poll_result(creator, poll_id, description, options) is Ok,
    ensures
        ({
            let later = s.after_create_poll(creator, poll_id, description, options).run(since);
            let second = later.create_poll_result(
                creator,
                poll_id,
                second_description,
                second_options,
            );
            &&& second is Err
            &&& validation_error(second_description, second_options) is None ==> second == Err::<
                Seq<u8>,
                VotingError,
            >(VotingError::PollAlreadyExists)
            &&& later.after_create_poll(creator, poll_id, second_description, second_options)
                == later
        }),
{
    let address = s.create_poll_result(creator, poll_id, description, options)->Ok_0;
    let first = s.after_create_poll(creator, poll_id, description, options);
    assert(first.polls[s.polls.len() as int].address == address);
    law_records_stay(first, since, address);
}

/// A voter can vote on a poll at most once. After one accepted vote, and
/// whatever happened since, a second attempt by the same voter on the same
/// poll is refused and changes nothing, the counters included; where it names
/// an option of the poll the reason given is the collision.
pub proof fn law_one_vote_per_voter(
    s: LedgerView,
    voter: Seq<u8>,
    poll_address: Seq<u8>,
    option_index: u8,
    since: Seq<Operation>,
    second_index: u8,
)
    requires
        s.cast_vote_result(voter, poll_address, option_index) is Ok,
    ensures
        ({
            let later = s.after_cast_vote(voter, poll_address, option_index).run(since);
            let second = later.cast_vote_result(voter, poll_address, second_index);
            &&& second is Err
            &&& second_index < later.poll_at(poll_address).options.len() ==> second == Err::<
                Seq<u8>,
                VotingError,
            >(VotingError::AlreadyVoted)
            &&& later.after_cast_vote(voter, poll_address, second_index) == later
        }),
{
    let address = s.cast_vote_result(voter, poll_address, option_index)->Ok_0;
    let first = s.after_cast_vote(voter, poll_address, option_index);
    assert(first.records[s.records.len() as int].address == address);
    assert(first.polls[s.poll_index(poll_address)].address == poll_address);
    law_records_stay(first, since, address);
    law_records_stay(first, since, poll_address);
}

/// Where no address holds two records and every voter record lives at its
/// derived address, no voter has two records for one poll.
pub proof fn law_one_record_per_voter_and_poll(s: LedgerView)
    requires
        s.addresses_distinct(),
        s.at_derived_addresses(),
    ensures
        s.one_record_per_voter_and_poll(),
{
    assert forall|k: int, l: int| 0 <= k < l < s.records.len() implies !((
    #[trigger] s.records[k]).record.voter == (#[trigger] s.records[l]).record.voter
        && s.records[k].record.poll == s.records[l].record.poll) by {
        let first = s.records[k];
        let second = s.records[l];
        assert(derives_to(
            voter_record_address_of(s.program_id, first.record.voter, first.record.poll),
            first.address,
        ));
        assert(derives_to(
            voter_record_address_of(s.program_id, second.record.voter, second.record.poll),
            second.address,
        ));
        assert(first.address != second.address);
    }
}

/// Where no voter has two records for one poll, the records of a poll are as
/// many as its voters.
pub proof fn lemma_voters_counted(records: Seq<VoteEntryView>, poll_address: Seq<u8>)
    requires
        forall|k: int, l: int|
            0 <= k < l < records.len() ==> !((#[trigger] records[k]).record.voter == (
            #[trigger] records[l]).record.voter && records[k].record.poll
                == records[l].record.poll),
    ensures
        voters_of(records, poll_address).finite(),
        voters_of(records, poll_address).len() == count_votes(records, poll_address),
    decreases records.len(),
{
    let voters = voters_of(records, poll_address);
    if records.len() == 0 {
        assert(voters =~= Set::empty());
    } else {
        let earlier = records.drop_last();
        let last = records.last();
        let before = voters_of(earlier, poll_address);
        assert forall|k: int| 0 <= k < earlier.len() implies #[trigger] earlier[k]
            == records[k] by {}
        lemma_voters_counted(earlier, poll_address);
        if last.record.poll == poll_address {
            assert(!before.contains(last.record.voter)) by {
                if before.contains(last.record.voter) {
                    let k = choose|k: int|
                        0 <= k < earlier.len() && (#[trigger] earlier[k]).record.poll
                            == poll_address && earlier[k].record.voter == last.record.voter;
                    assert(records[k] == earlier[k]);
                    assert(records[records.len() - 1] == last);
                }
            }
            assert forall|voter: Seq<u8>| voters.contains(voter) implies before.insert(
                last.record.voter,
            ).contains(voter) by {
                let k = choose|k: int|
                    0 <= k < records.len() && (#[trigger] records[k]).record.poll == poll_address
                        && records[k].record.voter == voter;
                if k < earlier.len() {
                    assert(earlier[k].record.voter == voter);
                }
            }
            assert forall|voter: Seq<u8>| before.insert(last.record.voter).contains(
                voter,
            ) implies voters.contains(voter) by {
                if voter == last.record.voter {
                    assert(records[records.len() - 1].record.voter == voter);
                } else {
                    let k = choose|k: int|
                        0 <= k < earlier.len() && (#[trigger] earlier[k]).record.poll
                            == poll_address && earlier[k].record.voter == voter;
                    assert(records[k].record.voter == voter);
                }
            }
            assert(voters =~= before.insert(last.record.voter));
        } else {
            assert forall|voter: Seq<u8>| voters.contains(voter) implies before.contains(
                voter,
            ) by {
                let k = choose|k: int|
                    0 <= k < records.len() && (#[trigger] records[k]).record.poll == poll_address
                        && records[k].record.voter == voter;
                assert(earlier[k].record.voter == voter);
            }
            assert forall|voter: Seq<u8>| before.contains(voter) implies voters.contains(
                voter,
            ) by {
                let k = choose|k: int|
                    0 <= k < earlier.len() && (#[trigger] earlier[k]).record.poll == poll_address
                        && earlier[k].record.voter == voter;
                assert(records[k].record.voter == voter);
            }
            assert(voters =~= before);
        }
    }
}

/// The tally of a poll is the number of its voters. After any history that
/// starts from the empty ledger, the counters of every poll add up to the
/// number of voter records of that poll, which is the number of distinct
/// identities that have voted on it.
pub proof fn law_tally_counts_voters(
    program_id: Seq<u8>,
    history: Seq<Operation>,
    poll_address: Seq<u8>,
)
    ensures
        ({
            let s = LedgerView::empty(program_id).run(history);
            s.has_poll(poll_address) ==> {
                &&& s.poll_at(poll_address).total_votes() == s.votes_on(poll_address)
                &&& voters_of(s.records, poll_address).finite()
                &&& s.votes_on(poll_address) == voters_of(s.records, poll_address).len()
            }
        }),
{
    let start = LedgerView::empty(program_id);
    let s = start.run(history);
    law_history_keeps_consistency(start, history);
    if s.has_poll(poll_address) {
        let i = s.poll_index(poll_address);
        assert(s.polls[i].address == poll_address);
        law_one_record_per_voter_and_poll(s);
        lemma_voters_counted(s.records, poll_address);
    }
}

} // verus!
