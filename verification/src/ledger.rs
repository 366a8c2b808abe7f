//! The ledger: every poll and every voter record, each at its own address.
//!
//! The ledger only grows. A record comes into being through one primitive,
//! create-if-absent at an address, and the only change made to a stored record
//! is the increment of one option's counter when a vote is accepted. Both
//! operations either take full effect or leave the ledger as it was.

use vstd::prelude::*;
use crate::address::{
    derives_to, poll_address, poll_address_of, voter_record_address, voter_record_address_of,
    Address,
};
use crate::error::VotingError;
use crate::poll::{
    lemma_sum_votes_bounds, lemma_sum_votes_update, lemma_sum_votes_zero, options_view,
    validation_error, Options, OptionsView, Poll, PollView, VoterRecord, VoterRecordView,
};

verus! {

/// A poll and the address it lives at.
#[derive(Clone, Debug, PartialEq, Eq)]
pub struct PollEntry {
    pub address: Address,
    pub poll: Poll,
}

/// The mathematical content of a [`PollEntry`].
pub struct PollEntryView {
    pub address: Seq<u8>,
    pub poll: PollView,
}

impl View for PollEntry {
    type V = PollEntryView;

    open spec fn view(&self) -> PollEntryView {
        PollEntryView { address: self.address@, poll: self.poll@ }
    }
}

/// A voter record and the address it lives at.
#[derive(Clone, Copy, Debug, PartialEq, Eq)]
pub struct VoteEntry {
    pub address: Address,
    pub record: VoterRecord,
}

/// The mathematical content of a [`VoteEntry`].
pub struct VoteEntryView {
    pub address: Seq<u8>,
    pub record: VoterRecordView,
}

impl View for VoteEntry {
    type V = VoteEntryView;

    open spec fn view(&self) -> VoteEntryView {
        VoteEntryView { address: self.address@, record: self.record@ }
    }
}

/// The number of voter records in `records` that belong to the poll at
/// `poll_address`.
pub open spec fn count_votes(records: Seq<VoteEntryView>, poll_address: Seq<u8>) -> nat
    decreases records.len(),
{
    if records.len() == 0 {
        0
    } else {
        count_votes(records.drop_last(), poll_address) + if records.last().record.poll
            == poll_address {
            1nat
        } else {
            0nat
        }
    }
}

/// The mathematical content of a [`Ledger`]: the program it belongs to, and
/// its polls and voter records in the order in which they were created.
pub struct LedgerView {
    pub program_id: Seq<u8>,
    pub polls: Seq<PollEntryView>,
    pub records: Seq<VoteEntryView>,
}

impl LedgerView {
    /// The ledger of `program_id` before any operation.
    pub open spec fn empty(program_id: Seq<u8>) -> LedgerView {
        LedgerView { program_id, polls: Seq::empty(), records: Seq::empty() }
    }

    /// Whether a poll lives at `address`.
    pub open spec fn has_poll(self, address: Seq<u8>) -> bool {
        exists|i: int| 0 <= i < self.polls.len() && (#[trigger] self.polls[i]).address == address
    }

    /// The position of the poll that lives at `address`.
    pub open spec fn poll_index(self, address: Seq<u8>) -> int {
        choose|i: int| 0 <= i < self.polls.len() && (#[trigger] self.polls[i]).address == address
    }

    /// The poll that lives at `address`.
    pub open spec fn poll_at(self, address: Seq<u8>) -> PollView {
        self.polls[self.poll_index(address)].poll
    }

    /// Whether a voter record lives at `address`.
    pub open spec fn has_record(self, address: Seq<u8>) -> bool {
        exists|k: int|
            0 <= k < self.records.len() && (#[trigger] self.records[k]).address == address
    }

    /// The position of the voter record that lives at `address`.
    pub open spec fn record_index(self, address: Seq<u8>) -> int {
        choose|k: int|
            0 <= k < self.records.len() && (#[trigger] self.records[k]).address == address
    }

    /// The voter record that lives at `address`.
    pub open spec fn record_at(self, address: Seq<u8>) -> VoterRecordView {
        self.records[self.record_index(address)].record
    }

    /// Whether any record, of either kind, lives at `address`.
    pub open spec fn occupied(self, address: Seq<u8>) -> bool {
        self.has_poll(address) || self.has_record(address)
    }

    /// The number of accepted votes on the poll at `poll_address`.
    pub open spec fn votes_on(self, poll_address: Seq<u8>) -> nat {
        count_votes(self.records, poll_address)
    }

    /// No address holds more than one record.
    pub open spec fn addresses_distinct(self) -> bool {
        &&& forall|i: int, j: int|
            0 <= i < j < self.polls.len() ==> (#[trigger] self.polls[i]).address != (
            #[trigger] self.polls[j]).address
        &&& forall|k: int, l: int|
            0 <= k < l < self.records.len() ==> (#[trigger] self.records[k]).address != (
            #[trigger] self.records[l]).address
        &&& forall|i: int, k: int|
            0 <= i < self.polls.len() && 0 <= k < self.records.len() ==> (
            #[trigger] self.polls[i]).address != (#[trigger] self.records[k]).address
    }

    /// Every poll respects the size bounds.
    pub open spec fn polls_within_bounds(self) -> bool {
        forall|i: int| 0 <= i < self.polls.len() ==> (#[trigger] self.polls[i]).poll.within_bounds()
    }

    /// Every poll is active: nothing closes a poll once it is registered.
    pub open spec fn polls_active(self) -> bool {
        forall|i: int| 0 <= i < self.polls.len() ==> (#[trigger] self.polls[i]).poll.status
    }

    /// Every voter record belongs to a poll of the ledger and names one of
    /// its options.
    pub open spec fn records_name_options(self) -> bool {
        forall|k: int|
            0 <= k < self.records.len() ==> {
                let record = (#[trigger] self.records[k]).record;
                &&& self.has_poll(record.poll)
                &&& record.option_index < self.poll_at(record.poll).options.len()
            }
    }

    /// The counters of every poll add up to the number of its voter records.
    pub open spec fn tallies_match_records(self) -> bool {
        forall|i: int|
            0 <= i < self.polls.len() ==> (#[trigger] self.polls[i]).poll.total_votes()
                == self.votes_on(self.polls[i].address)
    }

    /// What holds of the ledger between any two operations.
    pub open spec fn wf(self) -> bool {
        &&& self.addresses_distinct()
        &&& self.polls_within_bounds()
        &&& self.polls_active()
        &&& self.records_name_options()
        &&& self.tallies_match_records()
    }

    /// Whether a poll with this content can be created at `address`, and if
    /// not, why. The bounds are judged before the address is tried.
    pub open spec fn create_poll_outcome(
        self,
        address: Seq<u8>,
        description: Seq<char>,
        options: Seq<OptionsView>,
    ) -> Result<(), VotingError> {
        match validation_error(description, options) {
            Some(e) => Err(e),
            None => if self.occupied(address) {
                Err(VotingError::PollAlreadyExists)
            } else {
                Ok(())
            },
        }
    }

    /// The ledger with one more poll, at `address`.
    pub open spec fn with_poll(self, address: Seq<u8>, poll: PollView) -> LedgerView {
        LedgerView { polls: self.polls.push(PollEntryView { address, poll }), ..self }
    }

    /// Whether a vote for `option_index` on the poll at `poll_address` can be
    /// recorded at `record_address`, and if not, why. The poll is looked up
    /// first, then the option, and only then is the record's address tried.
    pub open spec fn cast_vote_outcome(
        self,
        record_address: Seq<u8>,
        poll_address: Seq<u8>,
        option_index: u8,
    ) -> Result<(), VotingError> {
        if !self.has_poll(poll_address) {
            Err(VotingError::PollNotFound)
        } else if option_index >= self.poll_at(poll_address).options.len() {
            Err(VotingError::InvalidOptionIndex)
        } else if self.occupied(record_address) {
            Err(VotingError::AlreadyVoted)
        } else {
            Ok(())
        }
    }

    /// The ledger with one more voter record, at `record_address`, and one
    /// more vote on the chosen option of the poll at `poll_address`.
    pub open spec fn with_vote(
        self,
        record_address: Seq<u8>,
        voter: Seq<u8>,
        poll_address: Seq<u8>,
        option_index: u8,
    ) -> LedgerView {
        let i = self.poll_index(poll_address);
        LedgerView {
            polls: self.polls.update(
                i,
                PollEntryView {
                    address: poll_address,
                    poll: self.polls[i].poll.with_vote(option_index as int),
                },
            ),
            records: self.records.push(
                VoteEntryView {
                    address: record_address,
                    record: VoterRecordView { poll: poll_address, voter, option_index },
                },
            ),
            ..self
        }
    }
    /// Every poll lives at the address derived from its creator and its
    /// identifier, and every voter record at the address derived from its
    /// voter and its poll.
    pub open spec fn at_derived_addresses(self) -> bool {
        &&& forall|i: int|
            0 <= i < self.polls.len() ==> derives_to(
                poll_address_of(
                    self.program_id,
                    (#[trigger] self.polls[i]).poll.authority,
                    self.polls[i].poll.poll_id,
                ),
                self.polls[i].address,
            )
        &&& forall|k: int|
            0 <= k < self.records.len() ==> derives_to(
                voter_record_address_of(
                    self.program_id,
                    (#[trigger] self.records[k]).record.voter,
                    self.records[k].record.poll,
                ),
                self.records[k].address,
            )
    }

    /// What registering a poll reports: the address the poll now lives at,
    /// or why it was refused. The address is derived first; the bounds are
    /// judged next; the address is tried last.
    pub open spec fn create_poll_result(
        self,
        creator: Seq<u8>,
        poll_id: u64,
        description: Seq<char>,
        options: Seq<OptionsView>,
    ) -> Result<Seq<u8>, VotingError> {
        match poll_address_of(self.program_id, creator, poll_id) {
            None => Err(VotingError::AddressNotFound),
            Some((address, _)) => match self.create_poll_outcome(address, description, options) {
                Ok(()) => Ok(address),
                Err(e) => Err(e),
            },
        }
    }

    /// The ledger after `creator` has asked to register a poll: one poll
    /// longer if the request was accepted, unchanged if not.
    pub open spec fn after_create_poll(
        self,
        creator: Seq<u8>,
        poll_id: u64,
        description: Seq<char>,
        options: Seq<OptionsView>,
    ) -> LedgerView {
        match self.create_poll_result(creator, poll_id, description, options) {
            Ok(address) => self.with_poll(
                address,
                PollView::fresh(poll_id, creator, description, options),
            ),
            Err(_) => self,
        }
    }

    /// What casting a vote reports: the address the voter's record now lives
    /// at, or why the vote was refused. The address is derived first; then the
    /// poll is looked up, the option checked, and the address tried.
    pub open spec fn cast_vote_result(
        self,
        voter: Seq<u8>,
        poll_address: Seq<u8>,
        option_index: u8,
    ) -> Result<Seq<u8>, VotingError> {
        match voter_record_address_of(self.program_id, voter, poll_address) {
            None => Err(VotingError::AddressNotFound),
            Some((address, _)) => match self.cast_vote_outcome(
                address,
                poll_address,
                option_index,
            ) {
                Ok(()) => Ok(address),
                Err(e) => Err(e),
            },
        }
    }

    /// The ledger after `voter` has asked to vote: one record longer and one
    /// vote higher if the vote was accepted, unchanged if not.
    pub open spec fn after_cast_vote(
        self,
        voter: Seq<u8>,
        poll_address: Seq<u8>,
        option_index: u8,
    ) -> LedgerView {
        match self.cast_vote_result(voter, poll_address, option_index) {
            Ok(address) => self.with_vote(address, voter, poll_address, option_index),
            Err(_) => self,
        }
    }
}

/// A poll cannot have more voter records than the ledger has records.
pub proof fn lemma_count_votes_bound(records: Seq<VoteEntryView>, poll_address: Seq<u8>)
    ensures
        count_votes(records, poll_address) <= records.len(),
    decreases records.len(),
{
    if records.len() > 0 {
        lemma_count_votes_bound(records.drop_last(), poll_address);
    }
}

/// A new record adds one to the count of its own poll and nothing to any
/// other.
pub proof fn lemma_count_votes_push(
    records: Seq<VoteEntryView>,
    entry: VoteEntryView,
    poll_address: Seq<u8>,
)
    ensures
        count_votes(records.push(entry), poll_address) == count_votes(records, poll_address)
            + if entry.record.poll == poll_address {
            1nat
        } else {
            0nat
        },
{
    assert(records.push(entry).drop_last() =~= records);
}

/// Records that all belong to other polls count nothing for this one.
pub proof fn lemma_count_votes_none(records: Seq<VoteEntryView>, poll_address: Seq<u8>)
    requires
        forall|k: int|
            0 <= k < records.len() ==> (#[trigger] records[k]).record.poll != poll_address,
    ensures
        count_votes(records, poll_address) == 0,
    decreases records.len(),
{
    if records.len() > 0 {
        assert(records.last() == records[records.len() - 1]);
        assert forall|k: int| 0 <= k < records.drop_last().len() implies (
        #[trigger] records.drop_last()[k]).record.poll != poll_address by {
            assert(records.drop_last()[k] == records[k]);
        }
        lemma_count_votes_none(records.drop_last(), poll_address);
    }
}

impl LedgerView {
    /// Where addresses are distinct, a poll is found at its own position.
    pub proof fn lemma_poll_index(self, i: int)
        requires
            self.addresses_distinct(),
            0 <= i < self.polls.len(),
        ensures
            self.has_poll(self.polls[i].address),
            self.poll_index(self.polls[i].address) == i,
            self.poll_at(self.polls[i].address) == self.polls[i].poll,
    {
        let j = self.poll_index(self.polls[i].address);
        assert(self.polls[j].address == self.polls[i].address);
    }

    /// A poll with no vote yet can be added at a free address.
    pub proof fn lemma_with_poll_wf(self, address: Seq<u8>, poll: PollView)
        requires
            self.wf(),
            !self.occupied(address),
            poll.within_bounds(),
            poll.status,
            poll.total_votes() == 0,
        ensures
            self.with_poll(address, poll).wf(),
    {
        let next = self.with_poll(address, poll);
        let last = self.polls.len() as int;
        assert(next.addresses_distinct());
        assert forall|k: int| 0 <= k < next.records.len() implies {
            let record = (#[trigger] next.records[k]).record;
            &&& next.has_poll(record.poll)
            &&& record.option_index < next.poll_at(record.poll).options.len()
        } by {
            let record = self.records[k].record;
            let i = self.poll_index(record.poll);
            assert(self.polls[i].address == record.poll);
            assert(next.polls[i] == self.polls[i]);
            next.lemma_poll_index(i);
        }
        assert forall|i: int| 0 <= i < next.polls.len() implies (
        #[trigger] next.polls[i]).poll.total_votes() == next.votes_on(next.polls[i].address) by {
            if i == last {
                assert forall|k: int| 0 <= k < self.records.len() implies (
                #[trigger] self.records[k]).record.poll != address by {
                    assert(self.has_poll(self.records[k].record.poll));
                }
                lemma_count_votes_none(self.records, address);
            } else {
                assert(next.polls[i] == self.polls[i]);
            }
        }
    }

    /// An accepted vote keeps the ledger consistent.
    pub proof fn lemma_with_vote_wf(
        self,
        record_address: Seq<u8>,
        voter: Seq<u8>,
        poll_address: Seq<u8>,
        option_index: u8,
    )
        requires
            self.wf(),
            self.cast_vote_outcome(record_address, poll_address, option_index) is Ok,
        ensures
            self.with_vote(record_address, voter, poll_address, option_index).wf(),
    {
        let next = self.with_vote(record_address, voter, poll_address, option_index);
        let at = self.poll_index(poll_address);
        let entry = next.records.last();
        assert(self.polls[at].address == poll_address);
        self.lemma_poll_index(at);
        assert forall|i: int| 0 <= i < next.polls.len() implies (#[trigger] next.polls[i]).address
            == self.polls[i].address && next.polls[i].poll.options.len()
            == self.polls[i].poll.options.len() by {}
        assert(next.addresses_distinct()) by {
            assert forall|k: int, l: int| 0 <= k < l < next.records.len() implies (
            #[trigger] next.records[k]).address != (#[trigger] next.records[l]).address by {
                if l == self.records.len() {
                    assert(self.records[k].address != record_address);
                }
            }
            assert forall|i: int, k: int|
                0 <= i < next.polls.len() && 0 <= k < next.records.len() implies (
            #[trigger] next.polls[i]).address != (#[trigger] next.records[k]).address by {
                assert(self.polls[i].address != record_address);
                if k < self.records.len() {
                    assert(self.polls[i].address != self.records[k].address);
                }
            }
        }
        assert forall|i: int| 0 <= i < next.polls.len() implies (
        #[trigger] next.polls[i]).poll.within_bounds() by {
            if i == at {
                let before = self.polls[at].poll;
                let after = next.polls[at].poll;
                assert(before.within_bounds());
                if crate::poll::some_option_too_long(after.options) {
                    let j = choose|j: int|
                        0 <= j < after.options.len() && crate::poll::byte_len(
                            #[trigger] after.options[j].description,
                        ) > crate::poll::MAX_OPTION_DESCRIPTION_LEN;
                    assert(after.options[j].description == before.options[j].description);
                    assert(crate::poll::some_option_too_long(before.options));
                }
            } else {
                assert(next.polls[i] == self.polls[i]);
            }
        }
        assert forall|k: int| 0 <= k < next.records.len() implies {
            let record = (#[trigger] next.records[k]).record;
            &&& next.has_poll(record.poll)
            &&& record.option_index < next.poll_at(record.poll).options.len()
        } by {
            let record = next.records[k].record;
            let i = if k < self.records.len() {
                self.poll_index(record.poll)
            } else {
                at
            };
            if k < self.records.len() {
                assert(self.records[k].record == record);
                assert(self.has_poll(record.poll));
            }
            assert(self.polls[i].address == record.poll);
            self.lemma_poll_index(i);
            next.lemma_poll_index(i);
        }
        assert forall|i: int| 0 <= i < next.polls.len() implies (
        #[trigger] next.polls[i]).poll.total_votes() == next.votes_on(next.polls[i].address) by {
            lemma_count_votes_push(self.records, entry, next.polls[i].address);
            assert(next.records == self.records.push(entry));
            if i == at {
                let before = self.polls[at].poll;
                lemma_sum_votes_update(
                    before.options,
                    option_index as int,
                    before.with_vote(option_index as int).options[option_index as int],
                );
            } else {
                assert(next.polls[i] == self.polls[i]);
                assert(self.polls[i].address != self.polls[at].address);
            }
        }
    }

    /// No counter of a poll exceeds the number of records in the ledger.
    pub proof fn lemma_votes_fit(self, poll_address: Seq<u8>, option_index: int)
        requires
            self.wf(),
            self.has_poll(poll_address),
            0 <= option_index < self.poll_at(poll_address).options.len(),
        ensures
            self.poll_at(poll_address).options[option_index].votes <= self.records.len(),
    {
        let at = self.poll_index(poll_address);
        assert(self.polls[at].address == poll_address);
        lemma_sum_votes_bounds(self.polls[at].poll.options, option_index);
        lemma_count_votes_bound(self.records, poll_address);
    }
}

/// The ledger of one program.
pub struct Ledger {
    program_id: Address,
    polls: Vec<PollEntry>,
    records: Vec<VoteEntry>,
}

impl View for Ledger {
    type V = LedgerView;

    closed spec fn view(&self) -> LedgerView {
        LedgerView {
            program_id: self.program_id@,
            polls: Seq::new(self.polls@.len(), |i: int| self.polls@[i]@),
            records: Seq::new(self.records@.len(), |k: int| self.records@[k]@),
        }
    }
}

impl Ledger {
    /// The empty ledger of `program_id`.
    pub fn new(program_id: Address) -> (ledger: Ledger)
        ensures
            ledger@ == LedgerView::empty(program_id@),
            ledger@.wf(),
    {
        let ledger = Ledger { program_id, polls: Vec::new(), records: Vec::new() };
        assert(ledger@.polls =~= Seq::empty());
        assert(ledger@.records =~= Seq::empty());
        ledger
    }

    /// The program this ledger belongs to.
    pub fn program_id(&self) -> (id: Address)
        ensures
            id@ == self@.program_id,
    {
        self.program_id
    }

    /// The position of the poll at `address`, if there is one.
    fn find_poll(&self, address: &Address) -> (found: Option<usize>)
        ensures
            match found {
                Some(i) => i < self@.polls.len() && self@.polls[i as int].address == address@,
                None => !self@.has_poll(address@),
            },
    {
        let mut i: usize = 0;
        while i < self.polls.len()
            invariant
                i <= self.polls.len(),
                forall|j: int| 0 <= j < i ==> (#[trigger] self@.polls[j]).address != address@,
            decreases self.polls.len() - i,
        {
            if self.polls[i].address.same_as(address) {
                return Some(i);
            }
            i = i + 1;
        }
        None
    }

    /// The position of the voter record at `address`, if there is one.
    fn find_record(&self, address: &Address) -> (found: Option<usize>)
        ensures
            match found {
                Some(k) => k < self@.records.len() && self@.records[k as int].address == address@,
                None => !self@.has_record(address@),
            },
    {
        let mut k: usize = 0;
        while k < self.records.len()
            invariant
                k <= self.records.len(),
                forall|l: int| 0 <= l < k ==> (#[trigger] self@.records[l]).address != address@,
            decreases self.records.len() - k,
        {
            if self.records[k].address.same_as(address) {
                return Some(k);
            }
            k = k + 1;
        }
        None
    }

    /// The poll that lives at `address`, if there is one.
    pub fn poll(&self, address: &Address) -> (found: Option<&Poll>)
        requires
            self@.wf(),
        ensures
            match found {
                Some(poll) => self@.has_poll(address@) && poll@ == self@.poll_at(address@),
                None => !self@.has_poll(address@),
            },
    {
        match self.find_poll(address) {
            Some(i) => {
                assert(self@.polls[self@.poll_index(address@)].address == address@);
                Some(&self.polls[i].poll)
            },
            None => None,
        }
    }

    /// The voter record that lives at `address`, if there is one.
    pub fn voter_record(&self, address: &Address) -> (found: Option<VoterRecord>)
        requires
            self@.wf(),
        ensures
            match found {
                Some(record) => self@.has_record(address@) && record@ == self@.record_at(address@),
                None => !self@.has_record(address@),
            },
    {
        match self.find_record(address) {
            Some(k) => {
                assert(self@.records[self@.record_index(address@)].address == address@);
                Some(self.records[k].record)
            },
            None => None,
        }
    }
    /// Creates a poll record at `address` unless some record already lives
    /// there: the one way a poll enters the ledger.
    fn create_poll_if_absent(&mut self, address: Address, poll: Poll) -> (created: bool)
        ensures
            created == !old(self)@.occupied(address@),
            created ==> final(self)@ == old(self)@.with_poll(address@, poll@),
            !created ==> final(self)@ == old(self)@,
    {
        if self.find_poll(&address).is_some() || self.find_record(&address).is_some() {
            return false;
        }
        self.polls.push(PollEntry { address, poll });
        assert(self@.polls =~= old(self)@.polls.push(
            PollEntryView { address: address@, poll: poll@ },
        ));
        assert(self@.records =~= old(self)@.records);
        true
    }

    /// Creates a voter record at `address` unless some record already lives
    /// there: the one way a vote enters the ledger.
    fn create_record_if_absent(&mut self, address: Address, record: VoterRecord) -> (created: bool)
        ensures
            created == !old(self)@.occupied(address@),
            created ==> final(self)@ == (LedgerView {
                records: old(self)@.records.push(
                    VoteEntryView { address: address@, record: record@ },
                ),
                ..old(self)@
            }),
            !created ==> final(self)@ == old(self)@,
    {
        if self.find_poll(&address).is_some() || self.find_record(&address).is_some() {
            return false;
        }
        self.records.push(VoteEntry { address, record });
        assert(self@.records =~= old(self)@.records.push(
            VoteEntryView { address: address@, record: record@ },
        ));
        assert(self@.polls =~= old(self)@.polls);
        true
    }

    /// Registers at `address` the poll that `creator` describes. The poll
    /// starts active with every counter at zero. A description or option list
    /// out of bounds is refused before the address is tried; an address that
    /// already holds a record is refused and that record stays as it is.
    pub fn create_poll_at(
        &mut self,
        address: Address,
        creator: Address,
        poll_id: u64,
        description: String,
        options: Vec<Options>,
    ) -> (r: Result<(), VotingError>)
        requires
            old(self)@.wf(),
        ensures
            final(self)@.wf(),
            r == old(self)@.create_poll_outcome(address@, description@, options_view(options@)),
            r is Ok ==> final(self)@ == old(self)@.with_poll(
                address@,
                PollView::fresh(poll_id, creator@, description@, options_view(options@)),
            ),
            r is Err ==> final(self)@ == old(self)@,
    {
        let ghost fresh = PollView::fresh(
            poll_id,
            creator@,
            description@,
            options_view(options@),
        );
        let poll = match Poll::new(poll_id, creator, description, options) {
            Err(e) => { return Err(e); },
            Ok(poll) => poll,
        };
        if !self.create_poll_if_absent(address, poll) {
            return Err(VotingError::PollAlreadyExists);
        }
        proof {
            crate::poll::lemma_fresh_within_bounds(fresh);
            lemma_sum_votes_zero(options_view(options@));
            old(self)@.lemma_with_poll_wf(address@, fresh);
        }
        Ok(())
    }

    /// Records at `record_address` that `voter` votes for the option at
    /// `option_index` of the poll at `poll_address`, and counts the vote.
    /// Record and count come together or not at all: a missing poll, an index
    /// that names no option, or an address that already holds a record leave
    /// the ledger as it was.
    pub fn cast_vote_at(
        &mut self,
        record_address: Address,
        voter: Address,
        poll_address: Address,
        option_index: u8,
    ) -> (r: Result<(), VotingError>)
        requires
            old(self)@.wf(),
        ensures
            final(self)@.wf(),
            r == old(self)@.cast_vote_outcome(record_address@, poll_address@, option_index),
            r is Ok ==> final(self)@ == old(self)@.with_vote(
                record_address@,
                voter@,
                poll_address@,
                option_index,
            ),
            r is Err ==> final(self)@ == old(self)@,
    {
        let at = match self.find_poll(&poll_address) {
            None => { return Err(VotingError::PollNotFound); },
            Some(at) => at,
        };
        proof {
            self@.lemma_poll_index(at as int);
        }
        if option_index as usize >= self.polls[at].poll.options.len() {
            return Err(VotingError::InvalidOptionIndex);
        }
        let record = VoterRecord { poll: poll_address, voter, option_index };
        if !self.create_record_if_absent(record_address, record) {
            return Err(VotingError::AlreadyVoted);
        }
        proof {
            old(self)@.lemma_votes_fit(poll_address@, option_index as int);
            assert(self@.records.len() == self.records.len());
        }
        let counted = self.polls[at].poll.record_vote(option_index);
        proof {
            assert(counted is Ok);
            assert(self@.polls =~= old(self)@.with_vote(
                record_address@,
                voter@,
                poll_address@,
                option_index,
            ).polls);
            old(self)@.lemma_with_vote_wf(record_address@, voter@, poll_address@, option_index);
        }
        Ok(())
    }
    /// Registers the poll that `creator` describes, at the address derived
    /// from `creator` and `poll_id`, and returns that address. A creator can
    /// use each identifier once: the second request finds the address taken
    /// and changes nothing.
    pub fn create_poll(
        &mut self,
        creator: Address,
        poll_id: u64,
        description: String,
        options: Vec<Options>,
    ) -> (r: Result<Address, VotingError>)
        requires
            old(self)@.wf(),
        ensures
            final(self)@.wf(),
            match r {
                Ok(address) => old(self)@.create_poll_result(
                    creator@,
                    poll_id,
                    description@,
                    options_view(options@),
                ) == Ok::<Seq<u8>, VotingError>(address@),
                Err(e) => old(self)@.create_poll_result(
                    creator@,
                    poll_id,
                    description@,
                    options_view(options@),
                ) == Err::<Seq<u8>, VotingError>(e),
            },
            final(self)@ == old(self)@.after_create_poll(
                creator@,
                poll_id,
                description@,
                options_view(options@),
            ),
            old(self)@.at_derived_addresses() ==> final(self)@.at_derived_addresses(),
    {
        let address = match poll_address(&self.program_id, &creator, poll_id) {
            Err(e) => { return Err(e); },
            Ok((address, _)) => address,
        };
        match self.create_poll_at(address, creator, poll_id, description, options) {
            Err(e) => Err(e),
            Ok(()) => Ok(address),
        }
    }

    /// Casts `voter`'s vote for the option at `option_index` of the poll at
    /// `poll_address`, and returns the address of the voter's record, which is
    /// derived from the voter and the poll's address. A voter can vote once on
    /// a poll: the second attempt finds the record's address taken and changes
    /// nothing. An index that names no option is always refused, and a refused
    /// vote, whatever the reason, leaves neither a record nor a count.
    pub fn cast_vote(&mut self, voter: Address, poll_address: Address, option_index: u8) -> (r:
        Result<Address, VotingError>)
        requires
            old(self)@.wf(),
        ensures
            final(self)@.wf(),
            match r {
                Ok(address) => old(self)@.cast_vote_result(voter@, poll_address@, option_index)
                    == Ok::<Seq<u8>, VotingError>(address@),
                Err(e) => old(self)@.cast_vote_result(voter@, poll_address@, option_index) == Err::<
                    Seq<u8>,
                    VotingError,
                >(e),
            },
            final(self)@ == old(self)@.after_cast_vote(voter@, poll_address@, option_index),
            r is Err ==> final(self)@ == old(self)@,
            old(self)@.has_poll(poll_address@) && option_index >= old(self)@.poll_at(
                poll_address@,
            ).options.len() ==> r is Err,
            old(self)@.at_derived_addresses() ==> final(self)@.at_derived_addresses(),
    {
        let address = match voter_record_address(&self.program_id, &voter, &poll_address) {
            Err(e) => { return Err(e); },
            Ok((address, _)) => address,
        };
        match self.cast_vote_at(address, voter, poll_address, option_index) {
            Err(e) => Err(e),
            Ok(()) => Ok(address),
        }
    }

    /// The number of polls in the ledger.
    pub fn poll_count(&self) -> (n: usize)
        ensures
            n == self@.polls.len(),
    {
        self.polls.len()
    }

    /// The number of voter records in the ledger.
    pub fn record_count(&self) -> (n: usize)
        ensures
            n == self@.records.len(),
    {
        self.records.len()
    }

    /// The number of accepted votes on the poll at `poll_address`.
    pub fn votes_cast_on(&self, poll_address: &Address) -> (n: usize)
        ensures
            n == self@.votes_on(poll_address@),
    {
        let mut n: usize = 0;
        let mut k: usize = 0;
        while k < self.records.len()
            invariant
                k <= self.records.len(),
                n <= k,
                n == count_votes(self@.records.take(k as int), poll_address@),
            decreases self.records.len() - k,
        {
            assert(self@.records.take(k + 1).drop_last() =~= self@.records.take(k as int));
            if self.records[k].record.poll.same_as(poll_address) {
                n = n + 1;
            }
            k = k + 1;
        }
        assert(self@.records.take(k as int) =~= self@.records);
        n
    }
}

} // verus!
