use voting_program::error::VoteError;
use voting_program::instruction::VotingInstruction;
use voting_program::processor::process_instruction;
use voting_program::codec::{decode_record, decode_system, encode_instruction};
use voting_program::state::{Account, Pubkey};

fn key(tag: u8) -> Pubkey {
    Pubkey { bytes: vec![tag; 32] }
}

fn signer(tag: u8) -> Account {
    Account {
        key: key(tag),
        owner: key(0),
        is_signer: true,
        lamports: 1,
        data: vec![],
        capacity: 0,
    }
}

fn state_account(tag: u8, owner: &Pubkey, lamports: u64, capacity: usize) -> Account {
    Account {
        key: key(tag),
        owner: owner.clone(),
        is_signer: false,
        lamports,
        data: vec![],
        capacity,
    }
}

fn run(
    pid: &Pubkey,
    accounts: &mut Vec<Account>,
    ins: &VotingInstruction,
    now: i64,
    min_reserve: u64,
) -> Result<(), VoteError> {
    let payload = encode_instruction(ins);
    process_instruction(pid, accounts, &payload, now, min_reserve)
}

/// Builds the board-election scenario up to (and including) the first
/// vote: two candidates, a window of [100, 200], one vote for index 1
/// at time 150. Returns the program id and the accounts
/// [voter, voting, receipt].
fn board_election_after_first_vote() -> (Pubkey, Vec<Account>) {
    let pid = key(9);
    let admin = signer(1);
    let voting = state_account(2, &pid, 1_000_000, 1024);
    let mut accounts = vec![admin, voting];

    let init = VotingInstruction::Initialize {
        name: b"Board Election".to_vec(),
        description: b"2024 vote".to_vec(),
    };
    assert_eq!(run(&pid, &mut accounts, &init, 0, 100), Ok(()));

    let alice = VotingInstruction::AddCandidate { name: b"Alice".to_vec(), description: vec![] };
    assert_eq!(run(&pid, &mut accounts, &alice, 0, 0), Ok(()));
    let bob = VotingInstruction::AddCandidate { name: b"Bob".to_vec(), description: vec![] };
    assert_eq!(run(&pid, &mut accounts, &bob, 0, 0), Ok(()));

    let window = VotingInstruction::SetVotingPeriod { start_time: 100, end_time: 200 };
    assert_eq!(run(&pid, &mut accounts, &window, 0, 0), Ok(()));

    let voting = accounts.remove(1);
    let voter = signer(5);
    let receipt = state_account(6, &pid, 1, 64);
    let mut accounts = vec![voter, voting, receipt];
    let vote = VotingInstruction::Vote { candidate_index: 1 };
    assert_eq!(run(&pid, &mut accounts, &vote, 150, 0), Ok(()));
    (pid, accounts)
}

#[test]
fn initialize_writes_fresh_state() {
    let pid = key(9);
    let admin = signer(1);
    let voting = state_account(2, &pid, 1_000_000, 1024);
    let mut accounts = vec![admin, voting];
    let init = VotingInstruction::Initialize {
        name: b"Board Election".to_vec(),
        description: b"2024 vote".to_vec(),
    };
    assert_eq!(run(&pid, &mut accounts, &init, 0, 100), Ok(()));
    let sys = decode_system(&accounts[1].data).unwrap();
    assert_eq!(sys.admin, key(1));
    assert_eq!(sys.name, b"Board Election".to_vec());
    assert_eq!(sys.description, b"2024 vote".to_vec());
    assert!(sys.candidates.is_empty());
    assert_eq!(sys.start_time, 0);
    assert_eq!(sys.end_time, 0);
    assert!(!sys.is_active);
}

#[test]
fn initialize_overwrites_previous_state() {
    let pid = key(9);
    let admin = signer(1);
    let other = signer(7);
    let voting = state_account(2, &pid, 1_000_000, 1024);
    let mut accounts = vec![admin, voting];
    let init = VotingInstruction::Initialize {
        name: b"first".to_vec(),
        description: vec![],
    };
    assert_eq!(run(&pid, &mut accounts, &init, 0, 100), Ok(()));
    let voting = accounts.remove(1);
    let mut accounts = vec![other, voting];
    let again = VotingInstruction::Initialize {
        name: b"second".to_vec(),
        description: vec![],
    };
    assert_eq!(run(&pid, &mut accounts, &again, 0, 100), Ok(()));
    let sys = decode_system(&accounts[1].data).unwrap();
    assert_eq!(sys.admin, key(7));
    assert_eq!(sys.name, b"second".to_vec());
    assert!(sys.candidates.is_empty());
}

#[test]
fn initialize_requires_signer() {
    let pid = key(9);
    let mut admin = signer(1);
    admin.is_signer = false;
    let voting = state_account(2, &pid, 1_000_000, 1024);
    let mut accounts = vec![admin, voting];
    let init = VotingInstruction::Initialize { name: vec![], description: vec![] };
    assert_eq!(
        run(&pid, &mut accounts, &init, 0, 100),
        Err(VoteError::MissingAuthorization)
    );
    assert!(accounts[1].data.is_empty());
}

#[test]
fn initialize_requires_program_owner() {
    let pid = key(9);
    let admin = signer(1);
    let voting = state_account(2, &key(8), 1_000_000, 1024);
    let mut accounts = vec![admin, voting];
    let init = VotingInstruction::Initialize { name: vec![], description: vec![] };
    assert_eq!(run(&pid, &mut accounts, &init, 0, 100), Err(VoteError::WrongOwner));
}

#[test]
fn initialize_requires_reserve() {
    let pid = key(9);
    let admin = signer(1);
    let voting = state_account(2, &pid, 99, 1024);
    let mut accounts = vec![admin, voting];
    let init = VotingInstruction::Initialize { name: vec![], description: vec![] };
    assert_eq!(
        run(&pid, &mut accounts, &init, 0, 100),
        Err(VoteError::InsufficientReserve)
    );
}

#[test]
fn initialize_rejects_undersized_buffer() {
    let pid = key(9);
    let admin = signer(1);
    let voting = state_account(2, &pid, 1_000_000, 10);
    let mut accounts = vec![admin, voting];
    let init = VotingInstruction::Initialize { name: b"x".to_vec(), description: vec![] };
    assert_eq!(
        run(&pid, &mut accounts, &init, 0, 100),
        Err(VoteError::EncodingFailure)
    );
    assert!(accounts[1].data.is_empty());
}

#[test]
fn add_candidate_rejects_non_admin() {
    let pid = key(9);
    let admin = signer(1);
    let voting = state_account(2, &pid, 1_000_000, 1024);
    let mut accounts = vec![admin, voting];
    let init = VotingInstruction::Initialize { name: b"t".to_vec(), description: vec![] };
    assert_eq!(run(&pid, &mut accounts, &init, 0, 0), Ok(()));
    let voting = accounts.remove(1);
    let impostor = signer(4);
    let mut accounts = vec![impostor, voting];
    let add = VotingInstruction::AddCandidate { name: b"Mallory".to_vec(), description: vec![] };
    assert_eq!(run(&pid, &mut accounts, &add, 0, 0), Err(VoteError::Unauthorized));
    let sys = decode_system(&accounts[1].data).unwrap();
    assert!(sys.candidates.is_empty());
}

#[test]
fn add_candidate_appends_in_order() {
    let pid = key(9);
    let admin = signer(1);
    let voting = state_account(2, &pid, 1_000_000, 1024);
    let mut accounts = vec![admin, voting];
    let init = VotingInstruction::Initialize { name: b"t".to_vec(), description: vec![] };
    assert_eq!(run(&pid, &mut accounts, &init, 0, 0), Ok(()));
    let a = VotingInstruction::AddCandidate { name: b"A".to_vec(), description: b"a".to_vec() };
    let b = VotingInstruction::AddCandidate { name: b"B".to_vec(), description: b"b".to_vec() };
    assert_eq!(run(&pid, &mut accounts, &a, 0, 0), Ok(()));
    assert_eq!(run(&pid, &mut accounts, &b, 0, 0), Ok(()));
    let sys = decode_system(&accounts[1].data).unwrap();
    assert_eq!(sys.candidates.len(), 2);
    assert_eq!(sys.candidates[0].name, b"A".to_vec());
    assert_eq!(sys.candidates[0].votes, 0);
    assert_eq!(sys.candidates[1].name, b"B".to_vec());
    assert_eq!(sys.candidates[1].votes, 0);
}

#[test]
fn add_candidate_rejects_overfull_buffer() {
    let pid = key(9);
    let admin = signer(1);
    // Room for the bare record but not for a long candidate name.
    let voting = state_account(2, &pid, 1_000_000, 80);
    let mut accounts = vec![admin, voting];
    let init = VotingInstruction::Initialize { name: b"t".to_vec(), description: vec![] };
    assert_eq!(run(&pid, &mut accounts, &init, 0, 0), Ok(()));
    let add = VotingInstruction::AddCandidate { name: vec![b'x'; 100], description: vec![] };
    assert_eq!(run(&pid, &mut accounts, &add, 0, 0), Err(VoteError::EncodingFailure));
    let sys = decode_system(&accounts[1].data).unwrap();
    assert!(sys.candidates.is_empty());
}

#[test]
fn set_voting_period_rejects_empty_window() {
    let pid = key(9);
    let admin = signer(1);
    let voting = state_account(2, &pid, 1_000_000, 1024);
    let mut accounts = vec![admin, voting];
    let init = VotingInstruction::Initialize { name: b"t".to_vec(), description: vec![] };
    assert_eq!(run(&pid, &mut accounts, &init, 0, 0), Ok(()));
    let equal = VotingInstruction::SetVotingPeriod { start_time: 100, end_time: 100 };
    assert_eq!(run(&pid, &mut accounts, &equal, 0, 0), Err(VoteError::InvalidArgument));
    let reversed = VotingInstruction::SetVotingPeriod { start_time: 10, end_time: -5 };
    assert_eq!(run(&pid, &mut accounts, &reversed, 0, 0), Err(VoteError::InvalidArgument));
    let sys = decode_system(&accounts[1].data).unwrap();
    assert!(!sys.is_active);
    // A negative but forward window is accepted.
    let negative = VotingInstruction::SetVotingPeriod { start_time: -20, end_time: -10 };
    assert_eq!(run(&pid, &mut accounts, &negative, 0, 0), Ok(()));
    let sys = decode_system(&accounts[1].data).unwrap();
    assert!(sys.is_active);
    assert_eq!(sys.start_time, -20);
    assert_eq!(sys.end_time, -10);
}

#[test]
fn set_voting_period_replaces_prior_window() {
    let pid = key(9);
    let admin = signer(1);
    let voting = state_account(2, &pid, 1_000_000, 1024);
    let mut accounts = vec![admin, voting];
    let init = VotingInstruction::Initialize { name: b"t".to_vec(), description: vec![] };
    assert_eq!(run(&pid, &mut accounts, &init, 0, 0), Ok(()));
    let first = VotingInstruction::SetVotingPeriod { start_time: 100, end_time: 200 };
    assert_eq!(run(&pid, &mut accounts, &first, 0, 0), Ok(()));
    let second = VotingInstruction::SetVotingPeriod { start_time: 300, end_time: 400 };
    assert_eq!(run(&pid, &mut accounts, &second, 0, 0), Ok(()));
    let sys = decode_system(&accounts[1].data).unwrap();
    assert_eq!(sys.start_time, 300);
    assert_eq!(sys.end_time, 400);
}

#[test]
fn vote_before_window_is_configured_fails() {
    let pid = key(9);
    let admin = signer(1);
    let voting = state_account(2, &pid, 1_000_000, 1024);
    let mut accounts = vec![admin, voting];
    let init = VotingInstruction::Initialize { name: b"t".to_vec(), description: vec![] };
    assert_eq!(run(&pid, &mut accounts, &init, 0, 0), Ok(()));
    let voting = accounts.remove(1);
    let voter = signer(5);
    let receipt = state_account(6, &pid, 1, 64);
    let mut accounts = vec![voter, voting, receipt];
    let vote = VotingInstruction::Vote { candidate_index: 0 };
    assert_eq!(run(&pid, &mut accounts, &vote, 150, 0), Err(VoteError::VotingNotOpen));
}

#[test]
fn board_election_first_vote() {
    let (_pid, accounts) = board_election_after_first_vote();
    let sys = decode_system(&accounts[1].data).unwrap();
    assert_eq!(sys.candidates.len(), 2);
    assert_eq!(sys.candidates[0].name, b"Alice".to_vec());
    assert_eq!(sys.candidates[0].votes, 0);
    assert_eq!(sys.candidates[1].name, b"Bob".to_vec());
    assert_eq!(sys.candidates[1].votes, 1);
    let rec = decode_record(&accounts[2].data).unwrap();
    assert_eq!(rec.voter, key(5));
    assert_eq!(rec.candidate_index, 1);
    assert_eq!(rec.timestamp, 150);
}

#[test]
fn board_election_second_vote_same_receipt_rejected() {
    let (pid, mut accounts) = board_election_after_first_vote();
    let vote = VotingInstruction::Vote { candidate_index: 0 };
    assert_eq!(run(&pid, &mut accounts, &vote, 160, 0), Err(VoteError::AlreadyVoted));
    let sys = decode_system(&accounts[1].data).unwrap();
    assert_eq!(sys.candidates[0].votes, 0);
    assert_eq!(sys.candidates[1].votes, 1);
    let rec = decode_record(&accounts[2].data).unwrap();
    assert_eq!(rec.candidate_index, 1);
    assert_eq!(rec.timestamp, 150);
}

#[test]
fn vote_window_boundaries() {
    let (pid, mut accounts) = board_election_after_first_vote();
    let vote = VotingInstruction::Vote { candidate_index: 0 };

    // Outside the window, strictly before and strictly after.
    let receipt = state_account(7, &pid, 1, 64);
    accounts[2] = receipt;
    assert_eq!(run(&pid, &mut accounts, &vote, 99, 0), Err(VoteError::VotingNotOpen));
    assert_eq!(run(&pid, &mut accounts, &vote, 201, 0), Err(VoteError::VotingNotOpen));

    // At both boundaries, the vote succeeds.
    assert_eq!(run(&pid, &mut accounts, &vote, 100, 0), Ok(()));
    accounts[2] = state_account(8, &pid, 1, 64);
    assert_eq!(run(&pid, &mut accounts, &vote, 200, 0), Ok(()));
    let sys = decode_system(&accounts[1].data).unwrap();
    assert_eq!(sys.candidates[0].votes, 2);
    assert_eq!(sys.candidates[1].votes, 1);
}

#[test]
fn vote_rejects_out_of_range_candidate() {
    let (pid, mut accounts) = board_election_after_first_vote();
    accounts[2] = state_account(7, &pid, 1, 64);
    let at_count = VotingInstruction::Vote { candidate_index: 2 };
    assert_eq!(run(&pid, &mut accounts, &at_count, 150, 0), Err(VoteError::InvalidCandidate));
    let beyond = VotingInstruction::Vote { candidate_index: 1_000_000 };
    assert_eq!(run(&pid, &mut accounts, &beyond, 150, 0), Err(VoteError::InvalidCandidate));
}

#[test]
fn vote_requires_signer_and_owners() {
    let (pid, mut accounts) = board_election_after_first_vote();
    accounts[2] = state_account(7, &pid, 1, 64);
    let vote = VotingInstruction::Vote { candidate_index: 0 };

    accounts[0].is_signer = false;
    assert_eq!(run(&pid, &mut accounts, &vote, 150, 0), Err(VoteError::MissingAuthorization));
    accounts[0].is_signer = true;

    accounts[2].owner = key(8);
    assert_eq!(run(&pid, &mut accounts, &vote, 150, 0), Err(VoteError::WrongOwner));
    accounts[2].owner = pid.clone();
    assert_eq!(run(&pid, &mut accounts, &vote, 150, 0), Ok(()));
}

#[test]
fn vote_rejects_undersized_receipt() {
    let (pid, mut accounts) = board_election_after_first_vote();
    // A receipt needs 44 bytes; give it 43.
    accounts[2] = state_account(7, &pid, 1, 43);
    let vote = VotingInstruction::Vote { candidate_index: 0 };
    assert_eq!(run(&pid, &mut accounts, &vote, 150, 0), Err(VoteError::EncodingFailure));
    assert!(accounts[2].data.is_empty());
    accounts[2] = state_account(8, &pid, 1, 44);
    assert_eq!(run(&pid, &mut accounts, &vote, 150, 0), Ok(()));
}

#[test]
fn malformed_payloads_are_rejected_before_accounts() {
    let pid = key(9);
    let mut accounts: Vec<Account> = vec![];
    // Unknown tag.
    assert_eq!(
        process_instruction(&pid, &mut accounts, &vec![4u8], 0, 0),
        Err(VoteError::MalformedInstruction)
    );
    // Empty payload.
    assert_eq!(
        process_instruction(&pid, &mut accounts, &vec![], 0, 0),
        Err(VoteError::MalformedInstruction)
    );
    // Truncated fields.
    assert_eq!(
        process_instruction(&pid, &mut accounts, &vec![0u8, 5, 0, 0], 0, 0),
        Err(VoteError::MalformedInstruction)
    );
    // Trailing garbage after a complete instruction.
    let mut payload = encode_instruction(&VotingInstruction::Vote { candidate_index: 0 });
    payload.push(0);
    assert_eq!(
        process_instruction(&pid, &mut accounts, &payload, 0, 0),
        Err(VoteError::MalformedInstruction)
    );
}

#[test]
fn missing_accounts_are_reported() {
    let pid = key(9);
    let mut accounts = vec![signer(1)];
    let init = VotingInstruction::Initialize { name: vec![], description: vec![] };
    assert_eq!(run(&pid, &mut accounts, &init, 0, 0), Err(VoteError::MissingAccount));
    let mut two = vec![signer(1), state_account(2, &pid, 1, 64)];
    let vote = VotingInstruction::Vote { candidate_index: 0 };
    assert_eq!(run(&pid, &mut two, &vote, 0, 0), Err(VoteError::MissingAccount));
}

#[test]
fn corrupt_state_is_reported() {
    let pid = key(9);
    let admin = signer(1);
    let mut voting = state_account(2, &pid, 1_000_000, 1024);
    voting.data = vec![1, 2, 3];
    let mut accounts = vec![admin, voting];
    let add = VotingInstruction::AddCandidate { name: b"A".to_vec(), description: vec![] };
    assert_eq!(run(&pid, &mut accounts, &add, 0, 0), Err(VoteError::EncodingFailure));
}
