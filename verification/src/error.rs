//! Failure reasons reported by the ledger's operations.

use vstd::prelude::*;

verus! {

/// The three families of failure, plus the two that only a machine limit or
/// the address search can cause.
#[derive(Clone, Copy, Debug, PartialEq, Eq, Structural)]
pub enum ErrorKind {
    /// An argument is out of bounds; detected before anything is touched.
    Validation,
    /// The target address already holds a record.
    Collision,
    /// A record that the operation refers to does not exist.
    Precondition,
    /// No address could be derived from the seeds.
    Derivation,
    /// A counter has reached the largest value it can hold.
    Capacity,
}

/// Why an operation was refused. A refused operation changes nothing.
#[derive(Clone, Copy, Debug, PartialEq, Eq, Structural)]
pub enum VotingError {
    /// The poll's description is longer than `MAX_DESCRIPTION_LEN` bytes.
    DescriptionTooLong,
    /// The poll was given no option at all.
    NoOptions,
    /// The poll was given more than `MAX_OPTIONS` options.
    TooManyOptions,
    /// One option's description is longer than `MAX_OPTION_DESCRIPTION_LEN` bytes.
    OptionDescriptionTooLong,
    /// The chosen option index does not name an option of the poll.
    InvalidOptionIndex,
    /// A poll already lives at the address derived for the new one.
    PollAlreadyExists,
    /// The voter already has a record for this poll.
    AlreadyVoted,
    /// No poll lives at the given address.
    PollNotFound,
    /// The address search ran out of candidates.
    AddressNotFound,
    /// The chosen option's counter cannot be incremented any further.
    TallyOverflow,
}

impl VotingError {
    /// The family this failure belongs to.
    pub open spec fn spec_kind(self) -> ErrorKind {
        match self {
            VotingError::DescriptionTooLong => ErrorKind::Validation,
            VotingError::NoOptions => ErrorKind::Validation,
            VotingError::TooManyOptions => ErrorKind::Validation,
            VotingError::OptionDescriptionTooLong => ErrorKind::Validation,
            VotingError::InvalidOptionIndex => ErrorKind::Validation,
            VotingError::PollAlreadyExists => ErrorKind::Collision,
            VotingError::AlreadyVoted => ErrorKind::Collision,
            VotingError::PollNotFound => ErrorKind::Precondition,
            VotingError::AddressNotFound => ErrorKind::Derivation,
            VotingError::TallyOverflow => ErrorKind::Capacity,
        }
    }

    /// The family this failure belongs to.
    #[verifier::when_used_as_spec(spec_kind)]
    pub fn kind(self) -> (k: ErrorKind)
        ensures
            k == self.spec_kind(),
    {
        match self {
            VotingError::DescriptionTooLong => ErrorKind::Validation,
            VotingError::NoOptions => ErrorKind::Validation,
            VotingError::TooManyOptions => ErrorKind::Validation,
            VotingError::OptionDescriptionTooLong => ErrorKind::Validation,
            VotingError::InvalidOptionIndex => ErrorKind::Validation,
            VotingError::PollAlreadyExists => ErrorKind::Collision,
            VotingError::AlreadyVoted => ErrorKind::Collision,
            VotingError::PollNotFound => ErrorKind::Precondition,
            VotingError::AddressNotFound => ErrorKind::Derivation,
            VotingError::TallyOverflow => ErrorKind::Capacity,
        }
    }
}

} // verus!
