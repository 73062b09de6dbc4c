use pda_ledger::address::{derive_address, poll_seed, push_text_seeds, Address};
use pda_ledger::error::LedgerError;
use pda_ledger::voting::{
    initialize_candidate, initialize_poll, read_candidate, read_poll, vote, Candidate,
    InitializeCandidate, InitializePoll, Poll, Vote, VotingLedger, CANDIDATE_SPACE, POLL_SPACE,
};

fn ledger() -> VotingLedger {
    VotingLedger::new(Address::new([9u8; 32]))
}

fn signer(n: u8) -> Address {
    Address::new([n; 32])
}

fn poll_address(l: &VotingLedger, poll_id: u64) -> Address {
    derive_address(&l.program_id, &vec![poll_seed(poll_id)]).unwrap().0
}

fn candidate_address(l: &VotingLedger, poll_id: u64, name: &str) -> Address {
    let mut seeds = vec![poll_seed(poll_id)];
    push_text_seeds(&mut seeds, name);
    derive_address(&l.program_id, &seeds).unwrap().0
}

fn open_poll(l: &mut VotingLedger, poll_id: u64, description: &str) -> Result<(), LedgerError> {
    let ctx = InitializePoll { signer: signer(1), poll: poll_address(l, poll_id) };
    initialize_poll(l, &ctx, poll_id, description.to_string(), 100, 200)
}

fn add_candidate(l: &mut VotingLedger, name: &str, poll_id: u64) -> Result<(), LedgerError> {
    let ctx = InitializeCandidate {
        signer: signer(1),
        poll: poll_address(l, poll_id),
        candidate: candidate_address(l, poll_id, name),
    };
    initialize_candidate(l, &ctx, name.to_string(), poll_id)
}

fn cast(l: &mut VotingLedger, who: u8, name: &str, poll_id: u64) -> Result<(), LedgerError> {
    let ctx = Vote {
        signer: signer(who),
        poll: poll_address(l, poll_id),
        candidate: candidate_address(l, poll_id, name),
    };
    vote(l, &ctx, name.to_string(), poll_id)
}

#[test]
fn spaces_count_every_field() {
    assert_eq!(Poll::INIT_SPACE, 316);
    assert_eq!(Candidate::INIT_SPACE, 292);
    assert_eq!(POLL_SPACE, 324);
    assert_eq!(CANDIDATE_SPACE, 300);
}

#[test]
fn poll_starts_with_no_candidates() {
    let mut l = ledger();
    assert_eq!(open_poll(&mut l, 1, "best fruit"), Ok(()));
    let p = read_poll(&l, 1).unwrap();
    assert_eq!(p.poll_id, 1);
    assert_eq!(p.description, "best fruit");
    assert_eq!(p.poll_start, 100);
    assert_eq!(p.poll_end, 200);
    assert_eq!(p.candidate_amount, 0);
    let at = poll_address(&l, 1);
    assert_eq!(l.polls.get(&at).unwrap().space, POLL_SPACE);
}

#[test]
fn poll_twice_already_initialized() {
    let mut l = ledger();
    assert_eq!(open_poll(&mut l, 1, "first"), Ok(()));
    assert_eq!(open_poll(&mut l, 1, "second"), Err(LedgerError::AlreadyInitialized));
    assert_eq!(read_poll(&l, 1).unwrap().description, "first");
}

#[test]
fn poll_at_wrong_address_mismatch() {
    let mut l = ledger();
    let ctx = InitializePoll { signer: signer(1), poll: poll_address(&l, 2) };
    let r = initialize_poll(&mut l, &ctx, 1, "d".to_string(), 0, 0);
    assert_eq!(r, Err(LedgerError::AddressMismatch));
    assert_eq!(l.polls.len(), 0);
}

#[test]
fn description_at_limit_accepted_over_limit_refused() {
    let mut l = ledger();
    assert_eq!(open_poll(&mut l, 1, &"d".repeat(280)), Ok(()));
    assert_eq!(open_poll(&mut l, 2, &"d".repeat(281)), Err(LedgerError::SizeExceeded));
    assert_eq!(read_poll(&l, 2).err(), Some(LedgerError::NotInitialized));
}

#[test]
fn candidate_registration_counts_on_poll() {
    let mut l = ledger();
    open_poll(&mut l, 1, "best fruit").unwrap();
    assert_eq!(add_candidate(&mut l, "Alice", 1), Ok(()));
    assert_eq!(read_poll(&l, 1).unwrap().candidate_amount, 1);
    let c = read_candidate(&l, &"Alice".to_string(), 1).unwrap();
    assert_eq!(c.candidate_name, "Alice");
    assert_eq!(c.candidate_votes, 0);
}

#[test]
fn candidate_twice_already_initialized() {
    let mut l = ledger();
    open_poll(&mut l, 1, "best fruit").unwrap();
    assert_eq!(add_candidate(&mut l, "Alice", 1), Ok(()));
    assert_eq!(add_candidate(&mut l, "Alice", 1), Err(LedgerError::AlreadyInitialized));
    assert_eq!(read_poll(&l, 1).unwrap().candidate_amount, 1);
    assert_eq!(l.candidates.len(), 1);
}

#[test]
fn two_candidates_count_two() {
    let mut l = ledger();
    open_poll(&mut l, 1, "best fruit").unwrap();
    add_candidate(&mut l, "Alice", 1).unwrap();
    add_candidate(&mut l, "Bob", 1).unwrap();
    assert_eq!(read_poll(&l, 1).unwrap().candidate_amount, 2);
}

#[test]
fn candidate_without_poll_not_initialized() {
    let mut l = ledger();
    assert_eq!(add_candidate(&mut l, "Alice", 1), Err(LedgerError::NotInitialized));
    assert_eq!(l.candidates.len(), 0);
}

#[test]
fn candidate_at_wrong_address_mismatch() {
    let mut l = ledger();
    open_poll(&mut l, 1, "best fruit").unwrap();
    let ctx = InitializeCandidate {
        signer: signer(1),
        poll: poll_address(&l, 1),
        candidate: candidate_address(&l, 1, "Bob"),
    };
    let r = initialize_candidate(&mut l, &ctx, "Alice".to_string(), 1);
    assert_eq!(r, Err(LedgerError::AddressMismatch));
    assert_eq!(read_poll(&l, 1).unwrap().candidate_amount, 0);
}

#[test]
fn candidate_name_over_limit_refused() {
    let mut l = ledger();
    open_poll(&mut l, 1, "best fruit").unwrap();
    let ctx = InitializeCandidate { signer: signer(1), poll: poll_address(&l, 1), candidate: signer(1) };
    let r = initialize_candidate(&mut l, &ctx, "n".repeat(281), 1);
    assert_eq!(r, Err(LedgerError::SizeExceeded));
    assert_eq!(read_poll(&l, 1).unwrap().candidate_amount, 0);
}

#[test]
fn candidate_name_at_limit_accepted() {
    let mut l = ledger();
    open_poll(&mut l, 1, "best fruit").unwrap();
    let name = "n".repeat(280);
    assert_eq!(add_candidate(&mut l, &name, 1), Ok(()));
    assert_eq!(read_poll(&l, 1).unwrap().candidate_amount, 1);
    let c = read_candidate(&l, &name, 1).unwrap();
    assert_eq!(c.candidate_name, name);
    assert_eq!(cast(&mut l, 11, &name, 1), Ok(()));
    assert_eq!(read_candidate(&l, &name, 1).unwrap().candidate_votes, 1);
}

#[test]
fn three_votes_from_three_signers() {
    let mut l = ledger();
    open_poll(&mut l, 1, "best fruit").unwrap();
    add_candidate(&mut l, "Alice", 1).unwrap();
    assert_eq!(cast(&mut l, 11, "Alice", 1), Ok(()));
    assert_eq!(cast(&mut l, 12, "Alice", 1), Ok(()));
    assert_eq!(cast(&mut l, 13, "Alice", 1), Ok(()));
    assert_eq!(read_candidate(&l, &"Alice".to_string(), 1).unwrap().candidate_votes, 3);
}

#[test]
fn same_signer_may_vote_again() {
    let mut l = ledger();
    open_poll(&mut l, 1, "best fruit").unwrap();
    add_candidate(&mut l, "Alice", 1).unwrap();
    add_candidate(&mut l, "Bob", 1).unwrap();
    cast(&mut l, 11, "Alice", 1).unwrap();
    cast(&mut l, 11, "Alice", 1).unwrap();
    assert_eq!(read_candidate(&l, &"Alice".to_string(), 1).unwrap().candidate_votes, 2);
    assert_eq!(read_candidate(&l, &"Bob".to_string(), 1).unwrap().candidate_votes, 0);
}

#[test]
fn vote_for_missing_candidate_not_initialized() {
    let mut l = ledger();
    open_poll(&mut l, 1, "best fruit").unwrap();
    assert_eq!(cast(&mut l, 11, "Alice", 1), Err(LedgerError::NotInitialized));
}

#[test]
fn vote_in_missing_poll_not_initialized() {
    let mut l = ledger();
    assert_eq!(cast(&mut l, 11, "Alice", 1), Err(LedgerError::NotInitialized));
}

#[test]
fn vote_at_wrong_address_mismatch() {
    let mut l = ledger();
    open_poll(&mut l, 1, "best fruit").unwrap();
    add_candidate(&mut l, "Alice", 1).unwrap();
    let ctx = Vote { signer: signer(3), poll: poll_address(&l, 1), candidate: candidate_address(&l, 2, "Alice") };
    assert_eq!(vote(&mut l, &ctx, "Alice".to_string(), 1), Err(LedgerError::AddressMismatch));
    assert_eq!(read_candidate(&l, &"Alice".to_string(), 1).unwrap().candidate_votes, 0);
}

#[test]
fn candidates_are_scoped_to_their_poll() {
    let mut l = ledger();
    open_poll(&mut l, 1, "one").unwrap();
    open_poll(&mut l, 2, "two").unwrap();
    add_candidate(&mut l, "Alice", 1).unwrap();
    add_candidate(&mut l, "Alice", 2).unwrap();
    cast(&mut l, 11, "Alice", 2).unwrap();
    assert_eq!(read_candidate(&l, &"Alice".to_string(), 1).unwrap().candidate_votes, 0);
    assert_eq!(read_candidate(&l, &"Alice".to_string(), 2).unwrap().candidate_votes, 1);
    assert_eq!(read_poll(&l, 1).unwrap().candidate_amount, 1);
    assert_eq!(read_poll(&l, 2).unwrap().candidate_amount, 1);
}
