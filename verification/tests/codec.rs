use voting_program::codec::{
    decode_instruction, decode_record, decode_system, encode_instruction, encode_record,
    encode_system,
};
use voting_program::instruction::VotingInstruction;
use voting_program::state::{Account, Candidate, Pubkey, VoteRecord, VotingSystem};
use voting_program::processor::initialize_voting_system;

fn sample_system() -> VotingSystem {
    VotingSystem {
        admin: Pubkey { bytes: vec![7; 32] },
        name: b"Board Election".to_vec(),
        description: b"2024 vote".to_vec(),
        candidates: vec![
            Candidate { name: b"Alice".to_vec(), description: vec![], votes: 3 },
            Candidate { name: b"Bob".to_vec(), description: b"b".to_vec(), votes: 0 },
        ],
        start_time: -100,
        end_time: 200,
        is_active: true,
    }
}

#[test]
fn system_round_trips() {
    let sys = sample_system();
    let bytes = encode_system(&sys);
    assert_eq!(decode_system(&bytes), Some(sample_system()));
}

#[test]
fn system_decode_rejects_trailing_and_truncated() {
    let sys = sample_system();
    let mut bytes = encode_system(&sys);
    bytes.push(0);
    assert_eq!(decode_system(&bytes), None);
    bytes.pop();
    bytes.pop();
    assert_eq!(decode_system(&bytes), None);
    assert_eq!(decode_system(&vec![]), None);
}

#[test]
fn system_decode_rejects_bad_flag_byte() {
    let sys = sample_system();
    let mut bytes = encode_system(&sys);
    let last = bytes.len() - 1;
    bytes[last] = 2;
    assert_eq!(decode_system(&bytes), None);
}

#[test]
fn record_round_trips() {
    let rec = VoteRecord { voter: Pubkey { bytes: vec![5; 32] }, candidate_index: 1, timestamp: 150 };
    let bytes = encode_record(&rec);
    assert_eq!(bytes.len(), 44);
    let back = decode_record(&bytes).unwrap();
    assert_eq!(back, rec);
}

#[test]
fn instruction_round_trips() {
    let cases = vec![
        VotingInstruction::Initialize { name: b"n".to_vec(), description: b"d".to_vec() },
        VotingInstruction::AddCandidate { name: vec![], description: vec![] },
        VotingInstruction::Vote { candidate_index: 7 },
        VotingInstruction::SetVotingPeriod { start_time: -5, end_time: 5 },
    ];
    for ins in cases {
        let bytes = encode_instruction(&ins);
        assert_eq!(decode_instruction(&bytes), Some(ins));
    }
}

#[test]
fn instruction_encoding_matches_borsh() {
    // The persisted layout is the length-prefixed little-endian
    // layout that borsh produces for equivalent record shapes.
    let name = "Board Election".to_string();
    let description = "2024 vote".to_string();
    let mut expected = vec![0u8];
    expected.extend(borsh::to_vec(&(name.clone(), description.clone())).unwrap());
    let ours = encode_instruction(&VotingInstruction::Initialize {
        name: name.into_bytes(),
        description: description.into_bytes(),
    });
    assert_eq!(ours, expected);

    let mut expected = vec![3u8];
    expected.extend(borsh::to_vec(&(-42i64, 99i64)).unwrap());
    let ours =
        encode_instruction(&VotingInstruction::SetVotingPeriod { start_time: -42, end_time: 99 });
    assert_eq!(ours, expected);

    let mut expected = vec![2u8];
    expected.extend(borsh::to_vec(&123u32).unwrap());
    let ours = encode_instruction(&VotingInstruction::Vote { candidate_index: 123 });
    assert_eq!(ours, expected);
}

#[test]
fn system_encoding_matches_borsh() {
    let sys = sample_system();
    let mut admin = [0u8; 32];
    admin.copy_from_slice(&sys.admin.bytes);
    let shape = (
        admin,
        String::from_utf8(sys.name.clone()).unwrap(),
        String::from_utf8(sys.description.clone()).unwrap(),
        vec![
            ("Alice".to_string(), String::new(), 3u64),
            ("Bob".to_string(), "b".to_string(), 0u64),
        ],
        sys.start_time,
        sys.end_time,
        sys.is_active,
    );
    let expected = borsh::to_vec(&shape).unwrap();
    assert_eq!(encode_system(&sys), expected);
}

#[test]
fn record_encoding_matches_borsh() {
    let rec = VoteRecord { voter: Pubkey { bytes: vec![5; 32] }, candidate_index: 1, timestamp: 150 };
    let mut voter = [0u8; 32];
    voter.copy_from_slice(&rec.voter.bytes);
    let expected = borsh::to_vec(&(voter, 1u32, 150i64)).unwrap();
    assert_eq!(encode_record(&rec), expected);
}

#[test]
fn initialize_called_directly_writes_state() {
    let pid = Pubkey { bytes: vec![9; 32] };
    let initializer = Account {
        key: Pubkey { bytes: vec![1; 32] },
        owner: Pubkey { bytes: vec![0; 32] },
        is_signer: true,
        lamports: 1,
        data: vec![],
        capacity: 0,
    };
    let mut voting = Account {
        key: Pubkey { bytes: vec![2; 32] },
        owner: pid.clone(),
        is_signer: false,
        lamports: 500,
        data: vec![],
        capacity: 128,
    };
    let r = initialize_voting_system(&pid, &initializer, &mut voting, 400, b"t".to_vec(), vec![]);
    assert_eq!(r, Ok(()));
    let sys = decode_system(&voting.data).unwrap();
    assert_eq!(sys.admin, Pubkey { bytes: vec![1; 32] });
}
