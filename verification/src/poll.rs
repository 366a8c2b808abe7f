//! The records of the ledger: polls, their options, and voter records.

use vstd::prelude::*;
use crate::address::Address;
use crate::error::VotingError;

verus! {

/// Largest size of a poll's description, in bytes.
pub const MAX_DESCRIPTION_LEN: usize = 256;

/// Largest number of options a poll can offer.
pub const MAX_OPTIONS: usize = 10;

/// Largest size of an option's description, in bytes.
pub const MAX_OPTION_DESCRIPTION_LEN: usize = 64;

/// The number of bytes a text occupies in a record (its UTF-8 encoding).
pub open spec fn byte_len(text: Seq<char>) -> nat {
    vstd::utf8::encode_utf8(text).len()
}

/// One selectable choice of a poll, with the votes it has received.
#[derive(Clone, Debug, PartialEq, Eq)]
pub struct Options {
    pub description: String,
    pub votes: u64,
}

/// The mathematical content of an [`Options`] value.
pub struct OptionsView {
    pub description: Seq<char>,
    pub votes: nat,
}

impl View for Options {
    type V = OptionsView;

    open spec fn view(&self) -> OptionsView {
        OptionsView { description: self.description@, votes: self.votes as nat }
    }
}

/// The contents of a list of options, in order.
pub open spec fn options_view(options: Seq<Options>) -> Seq<OptionsView> {
    Seq::new(options.len(), |i: int| options[i]@)
}

/// The sum of the counters of a list of options.
pub open spec fn sum_votes(options: Seq<OptionsView>) -> nat
    decreases options.len(),
{
    if options.len() == 0 {
        0
    } else {
        sum_votes(options.drop_last()) + options.last().votes
    }
}

/// The same options with every counter at zero.
pub open spec fn with_zero_votes(options: Seq<OptionsView>) -> Seq<OptionsView> {
    Seq::new(
        options.len(),
        |i: int| OptionsView { description: options[i].description, votes: 0 },
    )
}

/// Whether some option's description exceeds its bound.
pub open spec fn some_option_too_long(options: Seq<OptionsView>) -> bool {
    exists|i: int|
        0 <= i < options.len() && byte_len(#[trigger] options[i].description)
            > MAX_OPTION_DESCRIPTION_LEN
}

/// The reason for which a poll with this description and these options is
/// refused, if there is one. The description is judged first, then the number
/// of options, then the options' descriptions.
pub open spec fn validation_error(description: Seq<char>, options: Seq<OptionsView>) -> Option<
    VotingError,
> {
    if byte_len(description) > MAX_DESCRIPTION_LEN {
        Some(VotingError::DescriptionTooLong)
    } else if options.len() == 0 {
        Some(VotingError::NoOptions)
    } else if options.len() > MAX_OPTIONS {
        Some(VotingError::TooManyOptions)
    } else if some_option_too_long(options) {
        Some(VotingError::OptionDescriptionTooLong)
    } else {
        None
    }
}

/// A votable question with a fixed list of options and the identity that
/// registered it.
#[derive(Clone, Debug, PartialEq, Eq)]
pub struct Poll {
    pub poll_id: u64,
    pub authority: Address,
    pub description: String,
    pub options: Vec<Options>,
    pub status: bool,
}

/// The mathematical content of a [`Poll`].
pub struct PollView {
    pub poll_id: u64,
    pub authority: Seq<u8>,
    pub description: Seq<char>,
    pub options: Seq<OptionsView>,
    pub status: bool,
}

impl View for Poll {
    type V = PollView;

    open spec fn view(&self) -> PollView {
        PollView {
            poll_id: self.poll_id,
            authority: self.authority@,
            description: self.description@,
            options: options_view(self.options@),
            status: self.status,
        }
    }
}

impl PollView {
    /// The size bounds every stored poll respects.
    pub open spec fn within_bounds(self) -> bool {
        validation_error(self.description, self.options) is None
    }

    /// The poll as it is registered: active, with no vote on any option.
    pub open spec fn fresh(
        poll_id: u64,
        authority: Seq<u8>,
        description: Seq<char>,
        options: Seq<OptionsView>,
    ) -> PollView {
        PollView {
            poll_id,
            authority,
            description,
            options: with_zero_votes(options),
            status: true,
        }
    }

    /// All votes received, over all options.
    pub open spec fn total_votes(self) -> nat {
        sum_votes(self.options)
    }

    /// Whether a vote for `option_index` can be counted, and if not, why.
    pub open spec fn vote_outcome(self, option_index: u8) -> Result<(), VotingError> {
        if option_index >= self.options.len() {
            Err(VotingError::InvalidOptionIndex)
        } else if self.options[option_index as int].votes >= u64::MAX {
            Err(VotingError::TallyOverflow)
        } else {
            Ok(())
        }
    }

    /// The poll with one more vote on the option at `option_index`.
    pub open spec fn with_vote(self, option_index: int) -> PollView {
        PollView {
            options: self.options.update(
                option_index,
                OptionsView {
                    description: self.options[option_index].description,
                    votes: self.options[option_index].votes + 1,
                },
            ),
            ..self
        }
    }
}

/// The number of bytes `text` occupies in a record.
pub fn stored_len(text: &String) -> (len: usize)
    ensures
        len == byte_len(text@),
{
    text.as_str().as_bytes().len()
}

/// Checks the size bounds of a poll before anything is stored.
pub fn validate_poll(description: &String, options: &Vec<Options>) -> (r: Result<(), VotingError>)
    ensures
        match r {
            Ok(()) => validation_error(description@, options_view(options@)) is None,
            Err(e) => validation_error(description@, options_view(options@)) == Some(e),
        },
{
    if stored_len(description) > MAX_DESCRIPTION_LEN {
        return Err(VotingError::DescriptionTooLong);
    }
    if options.len() == 0 {
        return Err(VotingError::NoOptions);
    }
    if options.len() > MAX_OPTIONS {
        return Err(VotingError::TooManyOptions);
    }
    let mut i: usize = 0;
    while i < options.len()
        invariant
            i <= options.len(),
            byte_len(description@) <= MAX_DESCRIPTION_LEN,
            0 < options.len() <= MAX_OPTIONS,
            forall|k: int|
                0 <= k < i ==> byte_len(#[trigger] options_view(options@)[k].description)
                    <= MAX_OPTION_DESCRIPTION_LEN,
        decreases options.len() - i,
    {
        if stored_len(&options[i].description) > MAX_OPTION_DESCRIPTION_LEN {
            assert(byte_len(options_view(options@)[i as int].description)
                > MAX_OPTION_DESCRIPTION_LEN);
            return Err(VotingError::OptionDescriptionTooLong);
        }
        i = i + 1;
    }
    Ok(())
}

impl Poll {
    /// Builds the poll that `authority` registers under `poll_id`. The poll
    /// starts active and every option starts with no votes, whatever counters
    /// the given options carry; a description or an option list out of bounds
    /// is refused.
    pub fn new(poll_id: u64, authority: Address, description: String, options: Vec<Options>) -> (r:
        Result<Poll, VotingError>)
        ensures
            match r {
                Ok(poll) => validation_error(description@, options_view(options@)) is None
                    && poll@ == PollView::fresh(
                    poll_id,
                    authority@,
                    description@,
                    options_view(options@),
                ),
                Err(e) => validation_error(description@, options_view(options@)) == Some(e),
            },
    {
        match validate_poll(&description, &options) {
            Err(e) => Err(e),
            Ok(()) => {
                let mut options = options;
                let ghost given = options_view(options@);
                let mut i: usize = 0;
                while i < options.len()
                    invariant
                        i <= options.len(),
                        options@.len() == given.len(),
                        forall|k: int|
                            0 <= k < options@.len() ==> (#[trigger] options@[k]).description@
                                == given[k].description,
                        forall|k: int| 0 <= k < i ==> (#[trigger] options@[k]).votes == 0,
                    decreases options.len() - i,
                {
                    options[i].votes = 0;
                    i = i + 1;
                }
                let poll = Poll { poll_id, authority, description, options, status: true };
                assert(poll@.options =~= with_zero_votes(given));
                Ok(poll)
            },
        }
    }

    /// Counts one vote for the option at `option_index`. Nothing changes when
    /// the index names no option or the option's counter is full.
    pub fn record_vote(&mut self, option_index: u8) -> (r: Result<(), VotingError>)
        ensures
            r == old(self)@.vote_outcome(option_index),
            r is Ok ==> final(self)@ == old(self)@.with_vote(option_index as int),
            r is Err ==> *final(self) == *old(self),
    {
        let i = option_index as usize;
        if i >= self.options.len() {
            return Err(VotingError::InvalidOptionIndex);
        }
        match self.options[i].votes.checked_add(1) {
            None => Err(VotingError::TallyOverflow),
            Some(votes) => {
                self.options[i].votes = votes;
                assert(self@.options =~= old(self)@.with_vote(option_index as int).options);
                Ok(())
            },
        }
    }

    /// All votes received, over all options.
    pub fn total_votes(&self) -> (total: u128)
        ensures
            total == self@.total_votes(),
    {
        let ghost counted = options_view(self.options@);
        let mut total: u128 = 0;
        let mut i: usize = 0;
        while i < self.options.len()
            invariant
                i <= self.options.len(),
                counted == options_view(self.options@),
                total == sum_votes(counted.take(i as int)),
                total <= i * 0xffff_ffff_ffff_ffff,
            decreases self.options.len() - i,
        {
            assert(counted.take(i + 1).drop_last() =~= counted.take(i as int));
            total = total + self.options[i].votes as u128;
            i = i + 1;
        }
        assert(counted.take(i as int) =~= counted);
        total
    }
}

/// Replacing one option changes the sum by the change of its counter.
pub proof fn lemma_sum_votes_update(options: Seq<OptionsView>, i: int, option: OptionsView)
    requires
        0 <= i < options.len(),
    ensures
        sum_votes(options.update(i, option)) == sum_votes(options) - options[i].votes
            + option.votes,
    decreases options.len(),
{
    let updated = options.update(i, option);
    if i == options.len() - 1 {
        assert(updated.drop_last() =~= options.drop_last());
    } else {
        assert(updated.drop_last() =~= options.drop_last().update(i, option));
        lemma_sum_votes_update(options.drop_last(), i, option);
    }
}

/// No counter exceeds the sum of all counters.
pub proof fn lemma_sum_votes_bounds(options: Seq<OptionsView>, i: int)
    requires
        0 <= i < options.len(),
    ensures
        options[i].votes <= sum_votes(options),
    decreases options.len(),
{
    if i < options.len() - 1 {
        lemma_sum_votes_bounds(options.drop_last(), i);
    }
}

/// Options whose counters are all zero sum to zero.
pub proof fn lemma_sum_votes_zero(options: Seq<OptionsView>)
    ensures
        sum_votes(with_zero_votes(options)) == 0,
    decreases options.len(),
{
    if options.len() > 0 {
        assert(with_zero_votes(options).drop_last() =~= with_zero_votes(options.drop_last()));
        lemma_sum_votes_zero(options.drop_last());
    }
}

/// A poll as it is registered respects the bounds that its description and
/// options were checked against.
pub proof fn lemma_fresh_within_bounds(poll: PollView)
    requires
        validation_error(poll.description, poll.options) is None
            || exists|options: Seq<OptionsView>|
            poll.options == with_zero_votes(options) && validation_error(
                poll.description,
                options,
            ) is None,
    ensures
        poll.within_bounds(),
{
    if !(validation_error(poll.description, poll.options) is None) {
        let options = choose|options: Seq<OptionsView>|
            poll.options == with_zero_votes(options) && validation_error(
                poll.description,
                options,
            ) is None;
        if some_option_too_long(poll.options) {
            let i = choose|i: int|
                0 <= i < poll.options.len() && byte_len(#[trigger] poll.options[i].description)
                    > MAX_OPTION_DESCRIPTION_LEN;
            assert(options[i].description == poll.options[i].description);
        }
    }
}

/// The marker that a voter has voted on a poll. Its creation is what accepts
/// the vote; it is never changed afterwards.
#[derive(Clone, Copy, Debug, PartialEq, Eq)]
pub struct VoterRecord {
    /// Address of the poll the vote belongs to.
    pub poll: Address,
    /// Identity of the voter.
    pub voter: Address,
    /// Index of the chosen option.
    pub option_index: u8,
}

/// The mathematical content of a [`VoterRecord`].
pub struct VoterRecordView {
    pub poll: Seq<u8>,
    pub voter: Seq<u8>,
    pub option_index: u8,
}

impl View for VoterRecord {
    type V = VoterRecordView;

    open spec fn view(&self) -> VoterRecordView {
        VoterRecordView {
            poll: self.poll@,
            voter: self.voter@,
            option_index: self.option_index,
        }
    }
}

/// The records that setting the program up touches: none.
#[derive(Clone, Copy, Debug, PartialEq, Eq)]
pub struct Initialize {}

/// Sets the program up. There is nothing to set up, so this always succeeds
/// and touches no record.
pub fn initialize(program_id: &Address, accounts: &Initialize) -> (r: Result<(), VotingError>)
    ensures
        r == Ok::<(), VotingError>(()),
{
    Ok(())
}

} // verus!
