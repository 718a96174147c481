//! The instruction handlers and the dispatcher.
//!
//! Each handler validates its preconditions in a fixed order, each
//! failure a distinct tagged error, and defers every buffer write
//! until all preconditions have passed. The postconditions below pin
//! the exact outcome — result and final buffer contents — for every
//! input.

use vstd::prelude::*;
use crate::error::VoteError;
use crate::instruction::{InstructionView, VotingInstruction};
use crate::state::{Account, AccountView, Candidate, CandidateView, Pubkey, VoteRecord,
    VoteRecordView, VotingSystem, VotingSystemView, clone_bytes, clone_pubkey, pubkey_eq};
use crate::codec::{decode_instruction, decode_system, encode_record, encode_system,
    lemma_encode_candidates_len_update, lemma_encode_system_len, lemma_system_canonical,
    spec_encode_record, spec_encode_system, spec_parse_instruction, spec_parse_system};

verus! {

/// The state Initialize writes: the caller as admin, no candidates,
/// a zero window, voting closed.
pub open spec fn spec_initialized_system(
    admin: Seq<u8>,
    name: Seq<u8>,
    description: Seq<u8>,
) -> VotingSystemView {
    VotingSystemView {
        admin,
        name,
        description,
        candidates: Seq::<CandidateView>::empty(),
        start_time: 0,
        end_time: 0,
        is_active: false,
    }
}

/// The same account with its buffer replaced.
pub open spec fn account_with_data(a: AccountView, data: Seq<u8>) -> AccountView {
    AccountView { data, ..a }
}

/// Everything Initialize does, case by case, in the order the
/// preconditions are checked.
pub open spec fn initialize_post(
    pid: Seq<u8>,
    ini: AccountView,
    v_old: AccountView,
    v_new: AccountView,
    min_reserve: u64,
    name: Seq<u8>,
    description: Seq<u8>,
    r: Result<(), VoteError>,
) -> bool {
    let sys = spec_initialized_system(ini.key, name, description);
    let enc = spec_encode_system(sys);
    let authorized = ini.is_signer;
    let owned = v_old.owner == pid;
    let funded = v_old.lamports >= min_reserve;
    let encodable = name.len() <= u32::MAX && description.len() <= u32::MAX && enc.len()
        <= v_old.capacity;
    &&& (!authorized ==> r == Err::<(), VoteError>(VoteError::MissingAuthorization) && v_new
        == v_old)
    &&& (authorized && !owned ==> r == Err::<(), VoteError>(VoteError::WrongOwner) && v_new
        == v_old)
    &&& (authorized && owned && !funded ==> r == Err::<(), VoteError>(
        VoteError::InsufficientReserve,
    ) && v_new == v_old)
    &&& (authorized && owned && funded && !encodable ==> r == Err::<(), VoteError>(
        VoteError::EncodingFailure,
    ) && v_new == v_old)
    &&& (authorized && owned && funded && encodable ==> r == Ok::<(), VoteError>(()) && v_new
        == account_with_data(v_old, enc))
}

/// Creates a fresh voting topic in the target account, overwriting
/// whatever the buffer held before.
pub fn initialize_voting_system(
    program_id: &Pubkey,
    initializer: &Account,
    voting_account: &mut Account,
    min_reserve: u64,
    name: Vec<u8>,
    description: Vec<u8>,
) -> (r: Result<(), VoteError>)
    requires
        initializer@.wf(),
    ensures
        initialize_post(
            program_id@,
            initializer@,
            old(voting_account)@,
            final(voting_account)@,
            min_reserve,
            name@,
            description@,
            r,
        ),
{
    if !initializer.is_signer {
        return Err(VoteError::MissingAuthorization);
    }
    if !pubkey_eq(&voting_account.owner, program_id) {
        return Err(VoteError::WrongOwner);
    }
    if voting_account.lamports < min_reserve {
        return Err(VoteError::InsufficientReserve);
    }
    if name.len() > u32::MAX as usize || description.len() > u32::MAX as usize {
        return Err(VoteError::EncodingFailure);
    }
    let sys = VotingSystem {
        admin: clone_pubkey(&initializer.key),
        name,
        description,
        candidates: Vec::new(),
        start_time: 0,
        end_time: 0,
        is_active: false,
    };
    proof {
        assert(sys@.candidates =~= Seq::<CandidateView>::empty());
        assert(sys@ == spec_initialized_system(initializer@.key, name@, description@));
    }
    let enc = encode_system(&sys);
    if enc.len() > voting_account.capacity {
        return Err(VoteError::EncodingFailure);
    }
    voting_account.data = enc;
    Ok(())
}

/// Everything AddCandidate does, case by case.
pub open spec fn add_candidate_post(
    pid: Seq<u8>,
    adm: AccountView,
    v_old: AccountView,
    v_new: AccountView,
    name: Seq<u8>,
    description: Seq<u8>,
    r: Result<(), VoteError>,
) -> bool {
    let p = spec_parse_system(v_old.data);
    let sys = p.unwrap();
    let cand = CandidateView { name, description, votes: 0 };
    let newsys = VotingSystemView { candidates: sys.candidates.push(cand), ..sys };
    let enc = spec_encode_system(newsys);
    let authorized = adm.is_signer;
    let owned = v_old.owner == pid;
    let decodes = p is Some;
    let admin_match = sys.admin == adm.key;
    let encodable = name.len() <= u32::MAX && description.len() <= u32::MAX
        && sys.candidates.len() < u32::MAX && enc.len() <= v_old.capacity;
    &&& (!authorized ==> r == Err::<(), VoteError>(VoteError::MissingAuthorization) && v_new
        == v_old)
    &&& (authorized && !owned ==> r == Err::<(), VoteError>(VoteError::WrongOwner) && v_new
        == v_old)
    &&& (authorized && owned && !decodes ==> r == Err::<(), VoteError>(
        VoteError::EncodingFailure,
    ) && v_new == v_old)
    &&& (authorized && owned && decodes && !admin_match ==> r == Err::<(), VoteError>(
        VoteError::Unauthorized,
    ) && v_new == v_old)
    &&& (authorized && owned && decodes && admin_match && !encodable ==> r == Err::<
        (),
        VoteError,
    >(VoteError::EncodingFailure) && v_new == v_old)
    &&& (authorized && owned && decodes && admin_match && encodable ==> r == Ok::<(), VoteError>(
        (),
    ) && v_new == account_with_data(v_old, enc))
}

/// Appends a candidate, with zero votes, to the end of the stored
/// list; only the stored admin may do so.
pub fn add_candidate(
    program_id: &Pubkey,
    admin: &Account,
    voting_account: &mut Account,
    name: Vec<u8>,
    description: Vec<u8>,
) -> (r: Result<(), VoteError>)
    ensures
        add_candidate_post(
            program_id@,
            admin@,
            old(voting_account)@,
            final(voting_account)@,
            name@,
            description@,
            r,
        ),
{
    if !admin.is_signer {
        return Err(VoteError::MissingAuthorization);
    }
    if !pubkey_eq(&voting_account.owner, program_id) {
        return Err(VoteError::WrongOwner);
    }
    let mut sys = match decode_system(&voting_account.data) {
        Some(s) => s,
        None => {
            return Err(VoteError::EncodingFailure);
        },
    };
    if !pubkey_eq(&sys.admin, &admin.key) {
        return Err(VoteError::Unauthorized);
    }
    if name.len() > u32::MAX as usize || description.len() > u32::MAX as usize {
        return Err(VoteError::EncodingFailure);
    }
    if sys.candidates.len() >= u32::MAX as usize {
        return Err(VoteError::EncodingFailure);
    }
    let ghost old_view = sys@;
    let cand = Candidate { name, description, votes: 0 };
    let ghost cand_view = cand@;
    sys.candidates.push(cand);
    proof {
        lemma_system_canonical(old(voting_account)@.data);
        assert(sys@.candidates =~= old_view.candidates.push(cand_view));
        assert(sys@ == VotingSystemView { candidates: old_view.candidates.push(cand_view), ..old_view });
        assert(sys@.wf()) by {
            assert(forall|i: int|
                0 <= i < old_view.candidates.len() ==> (#[trigger] old_view.candidates[i]).wf());
            assert(sys@.candidates.last() == cand_view);
        }
    }
    let enc = encode_system(&sys);
    if enc.len() > voting_account.capacity {
        return Err(VoteError::EncodingFailure);
    }
    voting_account.data = enc;
    Ok(())
}

/// Everything SetVotingPeriod does, case by case. A valid window is
/// always written: re-encoding a fixed-width window cannot overflow a
/// buffer that already held this record.
pub open spec fn set_period_post(
    pid: Seq<u8>,
    adm: AccountView,
    v_old: AccountView,
    v_new: AccountView,
    start_time: i64,
    end_time: i64,
    r: Result<(), VoteError>,
) -> bool {
    let p = spec_parse_system(v_old.data);
    let sys = p.unwrap();
    let newsys = VotingSystemView { start_time, end_time, is_active: true, ..sys };
    let authorized = adm.is_signer;
    let owned = v_old.owner == pid;
    let decodes = p is Some;
    let admin_match = sys.admin == adm.key;
    let valid = end_time > start_time;
    &&& (!authorized ==> r == Err::<(), VoteError>(VoteError::MissingAuthorization) && v_new
        == v_old)
    &&& (authorized && !owned ==> r == Err::<(), VoteError>(VoteError::WrongOwner) && v_new
        == v_old)
    &&& (authorized && owned && !decodes ==> r == Err::<(), VoteError>(
        VoteError::EncodingFailure,
    ) && v_new == v_old)
    &&& (authorized && owned && decodes && !admin_match ==> r == Err::<(), VoteError>(
        VoteError::Unauthorized,
    ) && v_new == v_old)
    &&& (authorized && owned && decodes && admin_match && !valid ==> r == Err::<(), VoteError>(
        VoteError::InvalidArgument,
    ) && v_new == v_old)
    &&& (authorized && owned && decodes && admin_match && valid ==> r == Ok::<(), VoteError>(())
        && v_new == account_with_data(v_old, spec_encode_system(newsys)))
}

/// Sets the voting window and opens voting; callable repeatedly, each
/// call replacing the prior window. Rejects any empty or reversed
/// window.
pub fn set_voting_period(
    program_id: &Pubkey,
    admin: &Account,
    voting_account: &mut Account,
    start_time: i64,
    end_time: i64,
) -> (r: Result<(), VoteError>)
    requires
        old(voting_account)@.wf(),
    ensures
        set_period_post(
            program_id@,
            admin@,
            old(voting_account)@,
            final(voting_account)@,
            start_time,
            end_time,
            r,
        ),
{
    if !admin.is_signer {
        return Err(VoteError::MissingAuthorization);
    }
    if !pubkey_eq(&voting_account.owner, program_id) {
        return Err(VoteError::WrongOwner);
    }
    let mut sys = match decode_system(&voting_account.data) {
        Some(s) => s,
        None => {
            return Err(VoteError::EncodingFailure);
        },
    };
    if !pubkey_eq(&sys.admin, &admin.key) {
        return Err(VoteError::Unauthorized);
    }
    if end_time <= start_time {
        return Err(VoteError::InvalidArgument);
    }
    let ghost old_view = sys@;
    sys.start_time = start_time;
    sys.end_time = end_time;
    sys.is_active = true;
    proof {
        lemma_system_canonical(old(voting_account)@.data);
        assert(sys@ == VotingSystemView { start_time, end_time, is_active: true, ..old_view });
        lemma_encode_system_len(old_view, sys@);
    }
    let enc = encode_system(&sys);
    voting_account.data = enc;
    Ok(())
}

/// Everything Vote does, case by case, in the order the preconditions
/// are checked: authorization, ownership of both state accounts, a
/// decodable record, an open and current window, a known candidate,
/// an unused receipt — then the double write.
pub open spec fn vote_post(
    pid: Seq<u8>,
    voter: AccountView,
    v_old: AccountView,
    v_new: AccountView,
    rcpt_old: AccountView,
    rcpt_new: AccountView,
    now: i64,
    candidate_index: u32,
    r: Result<(), VoteError>,
) -> bool {
    let p = spec_parse_system(v_old.data);
    let sys = p.unwrap();
    let authorized = voter.is_signer;
    let owned = v_old.owner == pid && rcpt_old.owner == pid;
    let decodes = p is Some;
    let active = sys.is_active;
    let in_window = sys.start_time <= now && now <= sys.end_time;
    let valid_index = (candidate_index as int) < sys.candidates.len();
    let fresh = rcpt_old.data.len() == 0;
    let cand = sys.candidates[candidate_index as int];
    let rec = VoteRecordView { voter: voter.key, candidate_index, timestamp: now };
    let newsys = VotingSystemView {
        candidates: sys.candidates.update(
            candidate_index as int,
            CandidateView { votes: (cand.votes + 1) as u64, ..cand },
        ),
        ..sys
    };
    let countable = cand.votes < u64::MAX;
    let recordable = spec_encode_record(rec).len() <= rcpt_old.capacity;
    &&& (!authorized ==> r == Err::<(), VoteError>(VoteError::MissingAuthorization) && v_new
        == v_old && rcpt_new == rcpt_old)
    &&& (authorized && !owned ==> r == Err::<(), VoteError>(VoteError::WrongOwner) && v_new
        == v_old && rcpt_new == rcpt_old)
    &&& (authorized && owned && !decodes ==> r == Err::<(), VoteError>(
        VoteError::EncodingFailure,
    ) && v_new == v_old && rcpt_new == rcpt_old)
    &&& (authorized && owned && decodes && !active ==> r == Err::<(), VoteError>(
        VoteError::VotingNotOpen,
    ) && v_new == v_old && rcpt_new == rcpt_old)
    &&& (authorized && owned && decodes && active && !in_window ==> r == Err::<(), VoteError>(
        VoteError::VotingNotOpen,
    ) && v_new == v_old && rcpt_new == rcpt_old)
    &&& (authorized && owned && decodes && active && in_window && !valid_index ==> r == Err::<
        (),
        VoteError,
    >(VoteError::InvalidCandidate) && v_new == v_old && rcpt_new == rcpt_old)
    &&& (authorized && owned && decodes && active && in_window && valid_index && !fresh ==> r
        == Err::<(), VoteError>(VoteError::AlreadyVoted) && v_new == v_old && rcpt_new
        == rcpt_old)
    &&& (authorized && owned && decodes && active && in_window && valid_index && fresh && !(
    countable && recordable) ==> r == Err::<(), VoteError>(VoteError::EncodingFailure) && v_new
        == v_old && rcpt_new == rcpt_old)
    &&& (authorized && owned && decodes && active && in_window && valid_index && fresh
        && countable && recordable ==> r == Ok::<(), VoteError>(()) && v_new == account_with_data(
        v_old,
        spec_encode_system(newsys),
    ) && rcpt_new == account_with_data(rcpt_old, spec_encode_record(rec)))
}

/// Casts a vote: one more for the chosen candidate, and a receipt
/// written into the caller-supplied single-use receipt buffer.
pub fn vote(
    program_id: &Pubkey,
    voter: &Account,
    voting_account: &mut Account,
    vote_record_account: &mut Account,
    now: i64,
    candidate_index: u32,
) -> (r: Result<(), VoteError>)
    requires
        voter@.wf(),
        old(voting_account)@.wf(),
    ensures
        vote_post(
            program_id@,
            voter@,
            old(voting_account)@,
            final(voting_account)@,
            old(vote_record_account)@,
            final(vote_record_account)@,
            now,
            candidate_index,
            r,
        ),
{
    if !voter.is_signer {
        return Err(VoteError::MissingAuthorization);
    }
    if !pubkey_eq(&voting_account.owner, program_id) || !pubkey_eq(
        &vote_record_account.owner,
        program_id,
    ) {
        return Err(VoteError::WrongOwner);
    }
    let mut sys = match decode_system(&voting_account.data) {
        Some(s) => s,
        None => {
            return Err(VoteError::EncodingFailure);
        },
    };
    if !sys.is_active {
        return Err(VoteError::VotingNotOpen);
    }
    if now < sys.start_time || now > sys.end_time {
        return Err(VoteError::VotingNotOpen);
    }
    if candidate_index as usize >= sys.candidates.len() {
        return Err(VoteError::InvalidCandidate);
    }
    if vote_record_account.data.len() != 0 {
        return Err(VoteError::AlreadyVoted);
    }
    let idx = candidate_index as usize;
    let votes = sys.candidates[idx].votes;
    if votes == u64::MAX {
        return Err(VoteError::EncodingFailure);
    }
    let rec = VoteRecord { voter: clone_pubkey(&voter.key), candidate_index, timestamp: now };
    let rec_enc = encode_record(&rec);
    if rec_enc.len() > vote_record_account.capacity {
        return Err(VoteError::EncodingFailure);
    }
    let ghost old_view = sys@;
    let updated = Candidate {
        name: clone_bytes(&sys.candidates[idx].name),
        description: clone_bytes(&sys.candidates[idx].description),
        votes: votes + 1,
    };
    sys.candidates[idx] = updated;
    proof {
        lemma_system_canonical(old(voting_account)@.data);
        let old_cand = old_view.candidates[idx as int];
        let new_cand = CandidateView { votes: (old_cand.votes + 1) as u64, ..old_cand };
        assert(updated@ == new_cand);
        assert(sys@.candidates =~= old_view.candidates.update(idx as int, new_cand));
        assert(sys@ == VotingSystemView {
            candidates: old_view.candidates.update(idx as int, new_cand),
            ..old_view
        });
        assert(sys@.wf()) by {
            assert(forall|i: int|
                0 <= i < old_view.candidates.len() ==> (#[trigger] old_view.candidates[i]).wf());
            assert(forall|i: int|
                0 <= i < sys@.candidates.len() && i != idx ==> sys@.candidates[i]
                    == old_view.candidates[i]);
        }
        lemma_encode_candidates_len_update(old_view.candidates, idx as int, new_cand);
        lemma_encode_system_len(old_view, sys@);
    }
    let enc = encode_system(&sys);
    voting_account.data = enc;
    vote_record_account.data = rec_enc;
    Ok(())
}

/// How many leading accounts each instruction needs.
pub open spec fn accounts_needed(ins: InstructionView) -> int {
    match ins {
        InstructionView::Initialize { .. } => 2,
        InstructionView::AddCandidate { .. } => 2,
        InstructionView::Vote { .. } => 3,
        InstructionView::SetVotingPeriod { .. } => 2,
    }
}

/// Everything the dispatcher does: decode the payload, resolve the
/// account roles by position, and hand off to the matching handler;
/// any account not passed to the handler is left untouched.
pub open spec fn process_post(
    pid: Seq<u8>,
    o: Seq<Account>,
    n: Seq<Account>,
    data: Seq<u8>,
    now: i64,
    min_reserve: u64,
    r: Result<(), VoteError>,
) -> bool {
    match spec_parse_instruction(data) {
        None => r == Err::<(), VoteError>(VoteError::MalformedInstruction) && n == o,
        Some(ins) => if o.len() < accounts_needed(ins) {
            r == Err::<(), VoteError>(VoteError::MissingAccount) && n == o
        } else {
            &&& n.len() == o.len()
            &&& match ins {
                InstructionView::Initialize { name, description } => {
                    &&& initialize_post(
                        pid,
                        o[0]@,
                        o[1]@,
                        n[1]@,
                        min_reserve,
                        name,
                        description,
                        r,
                    )
                    &&& forall|j: int| #![auto] 0 <= j < o.len() && j != 1 ==> n[j] == o[j]
                },
                InstructionView::AddCandidate { name, description } => {
                    &&& add_candidate_post(pid, o[0]@, o[1]@, n[1]@, name, description, r)
                    &&& forall|j: int| #![auto] 0 <= j < o.len() && j != 1 ==> n[j] == o[j]
                },
                InstructionView::Vote { candidate_index } => {
                    &&& vote_post(pid, o[0]@, o[1]@, n[1]@, o[2]@, n[2]@, now, candidate_index, r)
                    &&& forall|j: int|
                        #![auto]
                        0 <= j < o.len() && j != 1 && j != 2 ==> n[j] == o[j]
                },
                InstructionView::SetVotingPeriod { start_time, end_time } => {
                    &&& set_period_post(pid, o[0]@, o[1]@, n[1]@, start_time, end_time, r)
                    &&& forall|j: int| #![auto] 0 <= j < o.len() && j != 1 ==> n[j] == o[j]
                },
            }
        },
    }
}

/// Decodes the instruction payload and routes it to the matching
/// handler, with the accounts resolved by position. The oracle facts —
/// the authenticated current time, and the reserve threshold for the
/// target account's size — arrive pre-decoded from their sysvars.
pub fn process_instruction(
    program_id: &Pubkey,
    accounts: &mut Vec<Account>,
    instruction_data: &Vec<u8>,
    now: i64,
    min_reserve: u64,
) -> (r: Result<(), VoteError>)
    requires
        forall|i: int| 0 <= i < old(accounts)@.len() ==> (#[trigger] old(accounts)@[i])@.wf(),
    ensures
        process_post(
            program_id@,
            old(accounts)@,
            final(accounts)@,
            instruction_data@,
            now,
            min_reserve,
            r,
        ),
{
    let ins = match decode_instruction(instruction_data) {
        Some(i) => i,
        None => {
            return Err(VoteError::MalformedInstruction);
        },
    };
    match ins {
        VotingInstruction::Initialize { name, description } => {
            if accounts.len() < 2 {
                return Err(VoteError::MissingAccount);
            }
            let mut voting = accounts.remove(1);
            let r = initialize_voting_system(
                program_id,
                &accounts[0],
                &mut voting,
                min_reserve,
                name,
                description,
            );
            accounts.insert(1, voting);
            proof {
                assert(accounts@ =~= old(accounts)@.update(1, accounts@[1]));
            }
            r
        },
        VotingInstruction::AddCandidate { name, description } => {
            if accounts.len() < 2 {
                return Err(VoteError::MissingAccount);
            }
            let mut voting = accounts.remove(1);
            let r = add_candidate(program_id, &accounts[0], &mut voting, name, description);
            accounts.insert(1, voting);
            proof {
                assert(accounts@ =~= old(accounts)@.update(1, accounts@[1]));
            }
            r
        },
        VotingInstruction::Vote { candidate_index } => {
            if accounts.len() < 3 {
                return Err(VoteError::MissingAccount);
            }
            let mut receipt = accounts.remove(2);
            let mut voting = accounts.remove(1);
            let r = vote(
                program_id,
                &accounts[0],
                &mut voting,
                &mut receipt,
                now,
                candidate_index,
            );
            accounts.insert(1, voting);
            accounts.insert(2, receipt);
            proof {
                assert(accounts@ =~= old(accounts)@.update(1, accounts@[1]).update(
                    2,
                    accounts@[2],
                ));
            }
            r
        },
        VotingInstruction::SetVotingPeriod { start_time, end_time } => {
            if accounts.len() < 2 {
                return Err(VoteError::MissingAccount);
            }
            let mut voting = accounts.remove(1);
            let r = set_voting_period(program_id, &accounts[0], &mut voting, start_time, end_time);
            accounts.insert(1, voting);
            proof {
                assert(accounts@ =~= old(accounts)@.update(1, accounts@[1]));
            }
            r
        },
    }
}

} // verus!
