use anchor_lang::prelude::Pubkey;
use voting_system::address::{
    derive_address, poll_address, voter_record_address, Address, Namespace,
};

fn someone(tag: u8) -> Address {
    Address::new([tag; 32])
}

fn program() -> Address {
    let mut bytes = [0u8; 32];
    for (i, b) in bytes.iter_mut().enumerate() {
        *b = (i as u8).wrapping_mul(7).wrapping_add(3);
    }
    Address::new(bytes)
}

#[test]
fn address_equality_is_bytewise() {
    let a = someone(1);
    let mut bytes = [1u8; 32];
    assert!(a.same_as(&Address::new(bytes)));
    bytes[31] = 2;
    assert!(!a.same_as(&Address::new(bytes)));
    bytes[31] = 1;
    bytes[0] = 0;
    assert!(!a.same_as(&Address::new(bytes)));
}

#[test]
fn address_seed_is_its_bytes() {
    let a = program();
    assert_eq!(a.to_seed(), a.bytes.to_vec());
    assert_eq!(a.to_seed().len(), 32);
}

#[test]
fn namespace_tags_are_the_ascii_words() {
    assert_eq!(Namespace::Poll.tag(), b"poll".to_vec());
    assert_eq!(Namespace::Vote.tag(), b"vote".to_vec());
}

#[test]
fn poll_address_is_the_program_derived_address() {
    let creator = someone(9);
    let (expected, bump) = Pubkey::find_program_address(
        &[b"poll", &creator.bytes, &1u64.to_le_bytes()],
        &Pubkey::new_from_array(program().bytes),
    );
    let (address, found_bump) = poll_address(&program(), &creator, 1).unwrap();
    assert_eq!(address.bytes, expected.to_bytes());
    assert_eq!(found_bump, bump);
    assert_ne!(address, creator);
    assert_ne!(address, program());
}

#[test]
fn poll_address_uses_little_endian_identifier() {
    let creator = someone(9);
    let id: u64 = 0x0102_0304_0506_0708;
    let (expected, _) = Pubkey::find_program_address(
        &[b"poll", &creator.bytes, &[8, 7, 6, 5, 4, 3, 2, 1]],
        &Pubkey::new_from_array(program().bytes),
    );
    let (address, _) = poll_address(&program(), &creator, id).unwrap();
    assert_eq!(address.bytes, expected.to_bytes());
}

#[test]
fn voter_record_address_is_the_program_derived_address() {
    let voter = someone(4);
    let poll = someone(5);
    let (expected, bump) = Pubkey::find_program_address(
        &[b"vote", &voter.bytes, &poll.bytes],
        &Pubkey::new_from_array(program().bytes),
    );
    let (address, found_bump) = voter_record_address(&program(), &voter, &poll).unwrap();
    assert_eq!(address.bytes, expected.to_bytes());
    assert_eq!(found_bump, bump);
}

#[test]
fn derivation_is_deterministic() {
    let a = poll_address(&program(), &someone(1), 42).unwrap();
    let b = poll_address(&program(), &someone(1), 42).unwrap();
    assert_eq!(a, b);
    let c = voter_record_address(&program(), &someone(1), &someone(2)).unwrap();
    let d = voter_record_address(&program(), &someone(1), &someone(2)).unwrap();
    assert_eq!(c, d);
}

#[test]
fn different_inputs_give_different_addresses() {
    let base = poll_address(&program(), &someone(1), 0).unwrap().0;
    assert_ne!(base, poll_address(&program(), &someone(2), 0).unwrap().0);
    assert_ne!(base, poll_address(&program(), &someone(1), 1).unwrap().0);
    assert_ne!(base, poll_address(&someone(8), &someone(1), 0).unwrap().0);
    let vote = voter_record_address(&program(), &someone(1), &someone(2)).unwrap().0;
    assert_ne!(vote, voter_record_address(&program(), &someone(2), &someone(1)).unwrap().0);
    assert_ne!(vote, voter_record_address(&program(), &someone(1), &someone(3)).unwrap().0);
}

#[test]
fn namespaces_keep_addresses_apart() {
    let first = vec![1u8; 32];
    let second = vec![2u8; 32];
    let poll = derive_address(&program(), Namespace::Poll, first.clone(), second.clone());
    let vote = derive_address(&program(), Namespace::Vote, first, second);
    assert_ne!(poll.unwrap().0, vote.unwrap().0);
}

#[test]
fn derive_address_prepends_the_tag() {
    let (expected, bump) = Pubkey::find_program_address(
        &[b"vote", &[1, 2, 3], &[]],
        &Pubkey::new_from_array(program().bytes),
    );
    let found = derive_address(&program(), Namespace::Vote, vec![1, 2, 3], Vec::new()).unwrap();
    assert_eq!(found.0.bytes, expected.to_bytes());
    assert_eq!(found.1, bump);
}

#[test]
fn a_seed_longer_than_the_runtime_allows_finds_no_address() {
    let r = derive_address(&program(), Namespace::Poll, vec![0u8; 33], Vec::new());
    assert_eq!(r, Err(voting_system::error::VotingError::AddressNotFound));
}
