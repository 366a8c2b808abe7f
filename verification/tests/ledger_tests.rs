use voting_system::address::{poll_address, voter_record_address, Address};
use voting_system::error::VotingError;
use voting_system::ledger::Ledger;
use voting_system::poll::{Options, VoterRecord};

fn option(text: &str) -> Options {
    Options { description: text.to_string(), votes: 0 }
}

fn yes_no() -> Vec<Options> {
    vec![option("Yes"), option("No")]
}

fn someone(tag: u8) -> Address {
    Address::new([tag; 32])
}

fn program() -> Address {
    someone(200)
}

fn tallies(ledger: &Ledger, poll: &Address) -> Vec<u64> {
    ledger.poll(poll).unwrap().options.iter().map(|o| o.votes).collect()
}

#[test]
fn a_new_ledger_is_empty() {
    let ledger = Ledger::new(program());
    assert_eq!(ledger.program_id(), program());
    assert_eq!(ledger.poll_count(), 0);
    assert_eq!(ledger.record_count(), 0);
    assert_eq!(ledger.poll(&someone(1)), None);
    assert_eq!(ledger.voter_record(&someone(1)), None);
    assert_eq!(ledger.votes_cast_on(&someone(1)), 0);
}

#[test]
fn created_poll_is_active_with_no_votes() {
    let mut ledger = Ledger::new(program());
    let creator = someone(1);
    let address = ledger.create_poll(creator, 1, "Lunch?".to_string(), yes_no()).unwrap();
    assert_eq!(address, poll_address(&program(), &creator, 1).unwrap().0);
    let poll = ledger.poll(&address).unwrap();
    assert_eq!(poll.poll_id, 1);
    assert_eq!(poll.authority, creator);
    assert_eq!(poll.description, "Lunch?");
    assert_eq!(poll.options, vec![option("Yes"), option("No")]);
    assert!(poll.status);
    assert_eq!(ledger.poll_count(), 1);
    assert_eq!(ledger.record_count(), 0);
}

#[test]
fn first_vote_is_recorded_and_counted() {
    let mut ledger = Ledger::new(program());
    let poll = ledger.create_poll(someone(1), 1, String::new(), yes_no()).unwrap();
    let x = someone(10);
    let record_address = ledger.cast_vote(x, poll, 0).unwrap();
    assert_eq!(record_address, voter_record_address(&program(), &x, &poll).unwrap().0);
    assert_eq!(
        ledger.voter_record(&record_address),
        Some(VoterRecord { poll, voter: x, option_index: 0 })
    );
    assert_eq!(tallies(&ledger, &poll), vec![1, 0]);
    assert_eq!(ledger.record_count(), 1);
}

#[test]
fn second_vote_by_same_voter_is_refused() {
    let mut ledger = Ledger::new(program());
    let poll = ledger.create_poll(someone(1), 1, String::new(), yes_no()).unwrap();
    let x = someone(10);
    let record_address = ledger.cast_vote(x, poll, 0).unwrap();
    assert_eq!(ledger.cast_vote(x, poll, 0), Err(VotingError::AlreadyVoted));
    assert_eq!(ledger.cast_vote(x, poll, 1), Err(VotingError::AlreadyVoted));
    // An index that names no option is refused for that reason first.
    assert_eq!(ledger.cast_vote(x, poll, 7), Err(VotingError::InvalidOptionIndex));
    assert_eq!(tallies(&ledger, &poll), vec![1, 0]);
    assert_eq!(ledger.record_count(), 1);
    assert_eq!(
        ledger.voter_record(&record_address),
        Some(VoterRecord { poll, voter: x, option_index: 0 })
    );
}

#[test]
fn vote_for_missing_option_is_refused() {
    let mut ledger = Ledger::new(program());
    let poll = ledger.create_poll(someone(1), 1, String::new(), yes_no()).unwrap();
    ledger.cast_vote(someone(10), poll, 0).unwrap();
    let y = someone(11);
    assert_eq!(ledger.cast_vote(y, poll, 5), Err(VotingError::InvalidOptionIndex));
    assert_eq!(ledger.cast_vote(y, poll, 2), Err(VotingError::InvalidOptionIndex));
    let would_be = voter_record_address(&program(), &y, &poll).unwrap().0;
    assert_eq!(ledger.voter_record(&would_be), None);
    assert_eq!(ledger.record_count(), 1);
    assert_eq!(tallies(&ledger, &poll), vec![1, 0]);
    // The refusal does not use up the voter's vote.
    assert!(ledger.cast_vote(y, poll, 1).is_ok());
    assert_eq!(tallies(&ledger, &poll), vec![1, 1]);
}

#[test]
fn same_poll_id_twice_is_refused() {
    let mut ledger = Ledger::new(program());
    let creator = someone(1);
    let poll = ledger.create_poll(creator, 1, "first".to_string(), yes_no()).unwrap();
    ledger.cast_vote(someone(10), poll, 1).unwrap();
    let before = ledger.poll(&poll).unwrap().clone();
    let again = ledger.create_poll(creator, 1, "second".to_string(), vec![option("Maybe")]);
    assert_eq!(again, Err(VotingError::PollAlreadyExists));
    assert_eq!(ledger.poll(&poll), Some(&before));
    assert_eq!(before.description, "first");
    assert_eq!(ledger.poll_count(), 1);
}

#[test]
fn poll_ids_are_unique_per_creator_only() {
    let mut ledger = Ledger::new(program());
    let a = ledger.create_poll(someone(1), 0, String::new(), yes_no()).unwrap();
    let b = ledger.create_poll(someone(2), 0, String::new(), yes_no()).unwrap();
    let c = ledger.create_poll(someone(1), 1, String::new(), yes_no()).unwrap();
    assert_ne!(a, b);
    assert_ne!(a, c);
    assert_eq!(ledger.poll_count(), 3);
}

#[test]
fn one_voter_may_vote_on_polls_that_share_an_id() {
    let mut ledger = Ledger::new(program());
    let a = ledger.create_poll(someone(1), 0, String::new(), yes_no()).unwrap();
    let b = ledger.create_poll(someone(2), 0, String::new(), yes_no()).unwrap();
    let x = someone(10);
    assert!(ledger.cast_vote(x, a, 0).is_ok());
    assert!(ledger.cast_vote(x, b, 1).is_ok());
    assert_eq!(tallies(&ledger, &a), vec![1, 0]);
    assert_eq!(tallies(&ledger, &b), vec![0, 1]);
}

#[test]
fn refused_create_poll_leaves_no_trace() {
    let mut ledger = Ledger::new(program());
    let long = "d".repeat(257);
    assert_eq!(
        ledger.create_poll(someone(1), 1, long, yes_no()),
        Err(VotingError::DescriptionTooLong)
    );
    assert_eq!(
        ledger.create_poll(someone(1), 1, String::new(), Vec::new()),
        Err(VotingError::NoOptions)
    );
    assert_eq!(
        ledger.create_poll(someone(1), 1, String::new(), vec![option("o"); 11]),
        Err(VotingError::TooManyOptions)
    );
    assert_eq!(
        ledger.create_poll(someone(1), 1, String::new(), vec![option(&"o".repeat(65))]),
        Err(VotingError::OptionDescriptionTooLong)
    );
    assert_eq!(ledger.poll_count(), 0);
    // The identifier is still free.
    assert!(ledger.create_poll(someone(1), 1, String::new(), yes_no()).is_ok());
}

#[test]
fn bounds_are_judged_before_the_collision() {
    let mut ledger = Ledger::new(program());
    ledger.create_poll(someone(1), 1, String::new(), yes_no()).unwrap();
    assert_eq!(
        ledger.create_poll(someone(1), 1, String::new(), Vec::new()),
        Err(VotingError::NoOptions)
    );
}

#[test]
fn vote_on_missing_poll_is_refused() {
    let mut ledger = Ledger::new(program());
    assert_eq!(ledger.cast_vote(someone(10), someone(99), 0), Err(VotingError::PollNotFound));
    assert_eq!(ledger.record_count(), 0);
}

#[test]
fn tally_equals_number_of_voters() {
    let mut ledger = Ledger::new(program());
    let a = ledger.create_poll(someone(1), 1, String::new(), yes_no()).unwrap();
    let b = ledger
        .create_poll(someone(1), 2, String::new(), vec![option("x"), option("y"), option("z")])
        .unwrap();
    for v in 0..20u8 {
        let voter = someone(100 + v);
        assert!(ledger.cast_vote(voter, a, v % 2).is_ok());
        // every second attempt repeats, and must not count
        let _ = ledger.cast_vote(voter, a, (v + 1) % 2);
        if v % 3 == 0 {
            assert!(ledger.cast_vote(voter, b, v % 3).is_ok());
        }
        let _ = ledger.cast_vote(voter, b, 3);
    }
    assert_eq!(tallies(&ledger, &a), vec![10, 10]);
    assert_eq!(tallies(&ledger, &b), vec![7, 0, 0]);
    assert_eq!(ledger.votes_cast_on(&a), 20);
    assert_eq!(ledger.votes_cast_on(&b), 7);
    assert_eq!(ledger.poll(&a).unwrap().total_votes(), 20);
    assert_eq!(ledger.poll(&b).unwrap().total_votes(), 7);
    assert_eq!(ledger.record_count(), 27);
}

#[test]
fn create_poll_at_places_the_poll_where_told() {
    let mut ledger = Ledger::new(program());
    let at = someone(50);
    assert_eq!(ledger.create_poll_at(at, someone(1), 3, "q".to_string(), yes_no()), Ok(()));
    let poll = ledger.poll(&at).unwrap();
    assert_eq!(poll.poll_id, 3);
    assert_eq!(poll.authority, someone(1));
    assert!(poll.status);
    assert_eq!(
        ledger.create_poll_at(at, someone(2), 4, String::new(), yes_no()),
        Err(VotingError::PollAlreadyExists)
    );
    assert_eq!(ledger.poll(&at).unwrap().authority, someone(1));
}

#[test]
fn cast_vote_at_reports_each_refusal() {
    let mut ledger = Ledger::new(program());
    let poll = someone(50);
    ledger.create_poll_at(poll, someone(1), 3, String::new(), yes_no()).unwrap();
    assert_eq!(
        ledger.cast_vote_at(someone(60), someone(10), someone(51), 0),
        Err(VotingError::PollNotFound)
    );
    assert_eq!(
        ledger.cast_vote_at(someone(60), someone(10), poll, 2),
        Err(VotingError::InvalidOptionIndex)
    );
    assert_eq!(ledger.cast_vote_at(someone(60), someone(10), poll, 1), Ok(()));
    assert_eq!(
        ledger.cast_vote_at(someone(60), someone(11), poll, 0),
        Err(VotingError::AlreadyVoted)
    );
    assert_eq!(tallies(&ledger, &poll), vec![0, 1]);
    assert_eq!(ledger.votes_cast_on(&poll), 1);
}

#[test]
fn polls_and_records_share_one_address_space() {
    let mut ledger = Ledger::new(program());
    let poll = someone(50);
    ledger.create_poll_at(poll, someone(1), 3, String::new(), yes_no()).unwrap();
    // a voter record cannot take the poll's address
    assert_eq!(
        ledger.cast_vote_at(poll, someone(10), poll, 0),
        Err(VotingError::AlreadyVoted)
    );
    ledger.cast_vote_at(someone(60), someone(10), poll, 0).unwrap();
    // nor a poll a voter record's
    assert_eq!(
        ledger.create_poll_at(someone(60), someone(1), 4, String::new(), yes_no()),
        Err(VotingError::PollAlreadyExists)
    );
    assert_eq!(ledger.poll_count(), 1);
    assert_eq!(ledger.record_count(), 1);
}

#[test]
fn polls_stay_active_and_keep_their_fields_through_votes() {
    let mut ledger = voting_system::Ledger::new(program());
    let poll = ledger.create_poll(someone(1), 5, "Tea?".to_string(), yes_no()).unwrap();
    for v in 0..5u8 {
        ledger.cast_vote(someone(30 + v), poll, 1).unwrap();
    }
    let stored = ledger.poll(&poll).unwrap();
    assert!(stored.status);
    assert_eq!(stored.poll_id, 5);
    assert_eq!(stored.authority, someone(1));
    assert_eq!(stored.description, "Tea?");
    assert_eq!(stored.options[0], option("Yes"));
    assert_eq!(stored.options[1], Options { description: "No".to_string(), votes: 5 });
}

#[test]
fn a_taken_identifier_stays_taken_whatever_happens_since() {
    let mut ledger = Ledger::new(program());
    let creator = someone(1);
    let poll = ledger.create_poll(creator, 1, String::new(), yes_no()).unwrap();
    ledger.create_poll(creator, 2, String::new(), yes_no()).unwrap();
    ledger.create_poll(someone(2), 1, String::new(), yes_no()).unwrap();
    ledger.cast_vote(someone(10), poll, 0).unwrap();
    let before = ledger.poll(&poll).unwrap().clone();
    assert_eq!(
        ledger.create_poll(creator, 1, "again".to_string(), yes_no()),
        Err(VotingError::PollAlreadyExists)
    );
    assert_eq!(ledger.poll(&poll), Some(&before));
    assert_eq!(ledger.poll_count(), 3);
    assert_eq!(ledger.record_count(), 1);
}
