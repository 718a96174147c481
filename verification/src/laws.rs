//! The library's laws: properties that span a whole call or relate
//! two calls, proved from the handlers' postconditions.

use vstd::prelude::*;
use crate::error::VoteError;
use crate::state::{AccountView, CandidateView, VoteRecordView, VotingSystemView, ID_LEN};
use crate::codec::{lemma_record_round_trip, lemma_system_canonical, lemma_system_round_trip,
    spec_encode_record, spec_parse_record, spec_parse_system};
use crate::processor::{account_with_data, add_candidate_post, initialize_post, set_period_post,
    spec_initialized_system, vote_post};

verus! {

/// A successful Initialize leaves a decodable topic whose admin is the
/// initializer, with no candidates, a zero window, and voting closed —
/// whatever the buffer held before.
pub proof fn lemma_initialize_creates_fresh_topic(
    pid: Seq<u8>,
    ini: AccountView,
    v_old: AccountView,
    v_new: AccountView,
    min_reserve: u64,
    name: Seq<u8>,
    description: Seq<u8>,
    r: Result<(), VoteError>,
)
    requires
        ini.wf(),
        initialize_post(pid, ini, v_old, v_new, min_reserve, name, description, r),
        r is Ok,
    ensures
        ({
            let sys = spec_parse_system(v_new.data);
            &&& sys is Some
            &&& sys.unwrap().admin == ini.key
            &&& sys.unwrap().name == name
            &&& sys.unwrap().description == description
            &&& sys.unwrap().candidates.len() == 0
            &&& sys.unwrap().start_time == 0
            &&& sys.unwrap().end_time == 0
            &&& !sys.unwrap().is_active
        }),
{
    let sys0 = spec_initialized_system(ini.key, name, description);
    assert(sys0.wf());
    lemma_system_round_trip(sys0);
}

/// A successful AddCandidate appends exactly one candidate, with zero
/// votes, at the end of the stored list — its index is the previous
/// count — and leaves every prior candidate and every other field of
/// the topic unchanged.
pub proof fn lemma_add_candidate_appends(
    pid: Seq<u8>,
    adm: AccountView,
    v_old: AccountView,
    v_new: AccountView,
    name: Seq<u8>,
    description: Seq<u8>,
    r: Result<(), VoteError>,
)
    requires
        add_candidate_post(pid, adm, v_old, v_new, name, description, r),
        r is Ok,
    ensures
        ({
            let sys = spec_parse_system(v_old.data).unwrap();
            let after = spec_parse_system(v_new.data);
            &&& spec_parse_system(v_old.data) is Some
            &&& after is Some
            &&& after.unwrap().candidates.len() == sys.candidates.len() + 1
            &&& after.unwrap().candidates.last() == (CandidateView {
                name,
                description,
                votes: 0,
            })
            &&& forall|j: int|
                0 <= j < sys.candidates.len() ==> after.unwrap().candidates[j]
                    == sys.candidates[j]
            &&& after.unwrap().admin == sys.admin
            &&& after.unwrap().name == sys.name
            &&& after.unwrap().description == sys.description
            &&& after.unwrap().start_time == sys.start_time
            &&& after.unwrap().end_time == sys.end_time
            &&& after.unwrap().is_active == sys.is_active
        }),
{
    lemma_system_canonical(v_old.data);
    let sys = spec_parse_system(v_old.data).unwrap();
    let cand = CandidateView { name, description, votes: 0 };
    let newsys = VotingSystemView { candidates: sys.candidates.push(cand), ..sys };
    assert(newsys.wf()) by {
        assert(forall|i: int|
            0 <= i < sys.candidates.len() ==> (#[trigger] sys.candidates[i]).wf());
        assert(newsys.candidates.last() == cand);
    }
    lemma_system_round_trip(newsys);
}

/// A successful SetVotingPeriod stores exactly the requested window,
/// opens voting, and changes nothing else; and it succeeds whenever
/// the admin asks for a non-empty window, however often it is called.
pub proof fn lemma_set_period_opens_window(
    pid: Seq<u8>,
    adm: AccountView,
    v_old: AccountView,
    v_new: AccountView,
    start_time: i64,
    end_time: i64,
    r: Result<(), VoteError>,
)
    requires
        set_period_post(pid, adm, v_old, v_new, start_time, end_time, r),
        r is Ok,
    ensures
        ({
            let sys = spec_parse_system(v_old.data).unwrap();
            let after = spec_parse_system(v_new.data);
            &&& spec_parse_system(v_old.data) is Some
            &&& after is Some
            &&& after.unwrap() == (VotingSystemView {
                start_time,
                end_time,
                is_active: true,
                ..sys
            })
            &&& end_time > start_time
        }),
{
    lemma_system_canonical(v_old.data);
    let sys = spec_parse_system(v_old.data).unwrap();
    let newsys = VotingSystemView { start_time, end_time, is_active: true, ..sys };
    assert(newsys.wf());
    lemma_system_round_trip(newsys);
}

/// A successful Vote increments exactly the chosen candidate's count
/// by one, changes no other candidate and no other field of the topic,
/// and leaves a decodable, non-empty receipt naming the voter, the
/// candidate index, and the authoritative time.
pub proof fn lemma_vote_increments_exactly_one(
    pid: Seq<u8>,
    voter: AccountView,
    v_old: AccountView,
    v_new: AccountView,
    rcpt_old: AccountView,
    rcpt_new: AccountView,
    now: i64,
    candidate_index: u32,
    r: Result<(), VoteError>,
)
    requires
        voter.wf(),
        vote_post(
            pid,
            voter,
            v_old,
            v_new,
            rcpt_old,
            rcpt_new,
            now,
            candidate_index,
            r,
        ),
        r is Ok,
    ensures
        ({
            let sys = spec_parse_system(v_old.data).unwrap();
            let after = spec_parse_system(v_new.data);
            &&& spec_parse_system(v_old.data) is Some
            &&& after is Some
            &&& after.unwrap().candidates.len() == sys.candidates.len()
            &&& after.unwrap().candidates[candidate_index as int].votes == sys.candidates[
                candidate_index as int
            ].votes + 1
            &&& forall|j: int|
                0 <= j < sys.candidates.len() && j != candidate_index as int ==> after.unwrap()
                    .candidates[j] == sys.candidates[j]
            &&& after.unwrap().admin == sys.admin
            &&& after.unwrap().start_time == sys.start_time
            &&& after.unwrap().end_time == sys.end_time
            &&& after.unwrap().is_active == sys.is_active
            &&& spec_parse_record(rcpt_new.data) == Some(
                VoteRecordView { voter: voter.key, candidate_index, timestamp: now },
            )
            &&& rcpt_new.data.len() > 0
        }),
{
    lemma_system_canonical(v_old.data);
    let sys = spec_parse_system(v_old.data).unwrap();
    let cand = sys.candidates[candidate_index as int];
    let newsys = VotingSystemView {
        candidates: sys.candidates.update(
            candidate_index as int,
            CandidateView { votes: (cand.votes + 1) as u64, ..cand },
        ),
        ..sys
    };
    assert(newsys.wf()) by {
        assert(forall|i: int|
            0 <= i < sys.candidates.len() ==> (#[trigger] sys.candidates[i]).wf());
        assert(forall|i: int|
            0 <= i < newsys.candidates.len() && i != candidate_index as int ==> newsys.candidates[
                i
            ] == sys.candidates[i]);
    }
    lemma_system_round_trip(newsys);
    let rec = VoteRecordView { voter: voter.key, candidate_index, timestamp: now };
    assert(rec.wf());
    lemma_record_round_trip(rec);
    vstd::bytes::lemma_auto_spec_u32_to_from_le_bytes();
    vstd::bytes::lemma_auto_spec_u64_to_from_le_bytes();
    assert(spec_encode_record(rec).len() == ID_LEN + 4 + 8);
}

/// Once a Vote has succeeded against a receipt account, any further
/// Vote handed that same receipt fails with `AlreadyVoted`, whichever
/// candidate it names: a successful vote is what makes the receipt
/// buffer non-empty, and an occupied receipt is rejected. The second
/// call is assumed to clear every check that precedes the receipt
/// check — an authorized caller, owned accounts, a decodable topic
/// with an open, current window, and a known candidate index — since
/// an earlier failure among those carries that earlier error instead.
pub proof fn lemma_second_vote_rejected(
    pid: Seq<u8>,
    voter1: AccountView,
    v1_old: AccountView,
    v1_new: AccountView,
    rcpt_old: AccountView,
    rcpt_new: AccountView,
    now1: i64,
    idx1: u32,
    r1: Result<(), VoteError>,
    voter2: AccountView,
    v2_old: AccountView,
    v2_new: AccountView,
    rcpt2_new: AccountView,
    now2: i64,
    idx2: u32,
    r2: Result<(), VoteError>,
)
    requires
        voter1.wf(),
        vote_post(pid, voter1, v1_old, v1_new, rcpt_old, rcpt_new, now1, idx1, r1),
        r1 is Ok,
        vote_post(pid, voter2, v2_old, v2_new, rcpt_new, rcpt2_new, now2, idx2, r2),
        voter2.is_signer,
        v2_old.owner == pid,
        spec_parse_system(v2_old.data) is Some,
        spec_parse_system(v2_old.data).unwrap().is_active,
        spec_parse_system(v2_old.data).unwrap().start_time <= now2 <= spec_parse_system(
            v2_old.data,
        ).unwrap().end_time,
        (idx2 as int) < spec_parse_system(v2_old.data).unwrap().candidates.len(),
    ensures
        r2 == Err::<(), VoteError>(VoteError::AlreadyVoted),
        rcpt2_new == rcpt_new,
{
    let rec = VoteRecordView { voter: voter1.key, candidate_index: idx1, timestamp: now1 };
    vstd::bytes::lemma_auto_spec_u32_to_from_le_bytes();
    vstd::bytes::lemma_auto_spec_u64_to_from_le_bytes();
    assert(spec_encode_record(rec).len() == ID_LEN + 4 + 8);
    assert(rcpt_new == account_with_data(rcpt_old, spec_encode_record(rec)));
    assert(rcpt_new.data.len() != 0);
    assert(rcpt_new.owner == pid);
}

} // verus!
