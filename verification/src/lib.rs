//! An append-only ledger of polls and votes.
//!
//! One party registers a poll with a fixed, bounded list of options; every
//! other party may cast exactly one vote on it. Records are never looked up
//! through a central table of identifiers: each poll and each vote lives at an
//! address derived from the identities involved, and the only way a record
//! comes into being is an atomic create-if-absent at that address.

pub mod error;
pub mod address;
pub mod poll;
pub mod ledger;
pub mod laws;

pub use address::Address;
pub use error::{ErrorKind, VotingError};
pub use ledger::Ledger;
pub use poll::{initialize, Initialize, Options, Poll, VoterRecord};
