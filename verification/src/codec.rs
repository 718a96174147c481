//! The byte codec for the persisted records and the instruction
//! payload: a deterministic, length-prefixed little-endian layout.
//!
//! Every record occupies its buffer exactly: decoding rejects trailing
//! bytes, truncated input, and invalid flag bytes, so each value has
//! exactly one encoding and `spec_parse_*` inverts `spec_encode_*`.

use vstd::prelude::*;
use vstd::bytes::{
    spec_u32_from_le_bytes, spec_u32_to_le_bytes, spec_u64_from_le_bytes, spec_u64_to_le_bytes,
    lemma_auto_spec_u32_to_from_le_bytes, lemma_auto_spec_u64_to_from_le_bytes, u32_from_le_bytes,
    u32_to_le_bytes, u64_from_le_bytes, u64_to_le_bytes,
};
use vstd::slice::{slice_subrange, slice_to_vec};
use crate::state::{CandidateView, VoteRecordView, VotingSystemView, ID_LEN};
use crate::instruction::InstructionView;

verus! {

// ---------------------------------------------------------------------
// The encoding, as mathematics.
// ---------------------------------------------------------------------

pub open spec fn spec_encode_u32(n: u32) -> Seq<u8> {
    spec_u32_to_le_bytes(n)
}

pub open spec fn spec_encode_u64(n: u64) -> Seq<u8> {
    spec_u64_to_le_bytes(n)
}

pub open spec fn spec_encode_i64(n: i64) -> Seq<u8> {
    spec_u64_to_le_bytes(n as u64)
}

pub open spec fn spec_encode_bool(v: bool) -> Seq<u8> {
    seq![if v { 1u8 } else { 0u8 }]
}

/// A byte string: a 32-bit length, then the bytes themselves.
pub open spec fn spec_encode_bytes(b: Seq<u8>) -> Seq<u8> {
    spec_encode_u32(b.len() as u32) + b
}

pub open spec fn spec_encode_candidate(c: CandidateView) -> Seq<u8> {
    spec_encode_bytes(c.name) + spec_encode_bytes(c.description) + spec_encode_u64(c.votes)
}

pub open spec fn spec_encode_candidates(s: Seq<CandidateView>) -> Seq<u8>
    decreases s.len(),
{
    if s.len() == 0 {
        Seq::<u8>::empty()
    } else {
        spec_encode_candidate(s[0]) + spec_encode_candidates(s.drop_first())
    }
}

pub open spec fn spec_encode_system(v: VotingSystemView) -> Seq<u8> {
    v.admin + spec_encode_bytes(v.name) + spec_encode_bytes(v.description) + spec_encode_u32(
        v.candidates.len() as u32,
    ) + spec_encode_candidates(v.candidates) + spec_encode_i64(v.start_time) + spec_encode_i64(
        v.end_time,
    ) + spec_encode_bool(v.is_active)
}

pub open spec fn spec_encode_record(r: VoteRecordView) -> Seq<u8> {
    r.voter + spec_encode_u32(r.candidate_index) + spec_encode_i64(r.timestamp)
}

pub open spec fn spec_encode_instruction(i: InstructionView) -> Seq<u8> {
    match i {
        InstructionView::Initialize { name, description } => seq![0u8] + spec_encode_bytes(name)
            + spec_encode_bytes(description),
        InstructionView::AddCandidate { name, description } => seq![1u8] + spec_encode_bytes(name)
            + spec_encode_bytes(description),
        InstructionView::Vote { candidate_index } => seq![2u8] + spec_encode_u32(candidate_index),
        InstructionView::SetVotingPeriod { start_time, end_time } => seq![3u8] + spec_encode_i64(
            start_time,
        ) + spec_encode_i64(end_time),
    }
}

// ---------------------------------------------------------------------
// The parser, as mathematics: each step consumes from a position and
// yields the parsed value and the next position, or nothing.
// ---------------------------------------------------------------------

pub open spec fn spec_parse_u8(b: Seq<u8>, pos: int) -> Option<(u8, int)> {
    if 0 <= pos && pos + 1 <= b.len() {
        Some((b[pos], pos + 1))
    } else {
        None
    }
}

pub open spec fn spec_parse_u32(b: Seq<u8>, pos: int) -> Option<(u32, int)> {
    if 0 <= pos && pos + 4 <= b.len() {
        Some((spec_u32_from_le_bytes(b.subrange(pos, pos + 4)), pos + 4))
    } else {
        None
    }
}

pub open spec fn spec_parse_u64(b: Seq<u8>, pos: int) -> Option<(u64, int)> {
    if 0 <= pos && pos + 8 <= b.len() {
        Some((spec_u64_from_le_bytes(b.subrange(pos, pos + 8)), pos + 8))
    } else {
        None
    }
}

pub open spec fn spec_parse_i64(b: Seq<u8>, pos: int) -> Option<(i64, int)> {
    match spec_parse_u64(b, pos) {
        Some((n, p)) => Some((n as i64, p)),
        None => None,
    }
}

/// Only the bytes 0 and 1 stand for a flag; anything else is rejected,
/// which keeps the encoding canonical.
pub open spec fn spec_parse_bool(b: Seq<u8>, pos: int) -> Option<(bool, int)> {
    if 0 <= pos && pos + 1 <= b.len() {
        if b[pos] == 0u8 {
            Some((false, pos + 1))
        } else if b[pos] == 1u8 {
            Some((true, pos + 1))
        } else {
            None
        }
    } else {
        None
    }
}

pub open spec fn spec_parse_fixed(b: Seq<u8>, pos: int, n: int) -> Option<(Seq<u8>, int)> {
    if 0 <= pos && 0 <= n && pos + n <= b.len() {
        Some((b.subrange(pos, pos + n), pos + n))
    } else {
        None
    }
}

pub open spec fn spec_parse_bytes(b: Seq<u8>, pos: int) -> Option<(Seq<u8>, int)> {
    match spec_parse_u32(b, pos) {
        Some((n, p)) => spec_parse_fixed(b, p, n as int),
        None => None,
    }
}

pub open spec fn spec_parse_candidate(b: Seq<u8>, pos: int) -> Option<(CandidateView, int)> {
    match spec_parse_bytes(b, pos) {
        Some((name, p1)) => match spec_parse_bytes(b, p1) {
            Some((description, p2)) => match spec_parse_u64(b, p2) {
                Some((votes, p3)) => Some((CandidateView { name, description, votes }, p3)),
                None => None,
            },
            None => None,
        },
        None => None,
    }
}

pub open spec fn spec_parse_candidates(b: Seq<u8>, pos: int, n: nat) -> Option<
    (Seq<CandidateView>, int),
>
    decreases n,
{
    if n == 0 {
        Some((Seq::<CandidateView>::empty(), pos))
    } else {
        match spec_parse_candidate(b, pos) {
            Some((c, p1)) => match spec_parse_candidates(b, p1, (n - 1) as nat) {
                Some((s, p2)) => Some((seq![c] + s, p2)),
                None => None,
            },
            None => None,
        }
    }
}

pub open spec fn spec_parse_system_at(b: Seq<u8>, pos: int) -> Option<(VotingSystemView, int)> {
    match spec_parse_fixed(b, pos, ID_LEN as int) {
        Some((admin, p1)) => match spec_parse_bytes(b, p1) {
            Some((name, p2)) => match spec_parse_bytes(b, p2) {
                Some((description, p3)) => match spec_parse_u32(b, p3) {
                    Some((count, p4)) => match spec_parse_candidates(b, p4, count as nat) {
                        Some((candidates, p5)) => match spec_parse_i64(b, p5) {
                            Some((start_time, p6)) => match spec_parse_i64(b, p6) {
                                Some((end_time, p7)) => match spec_parse_bool(b, p7) {
                                    Some((is_active, p8)) => Some(
                                        (
                                            VotingSystemView {
                                                admin,
                                                name,
                                                description,
                                                candidates,
                                                start_time,
                                                end_time,
                                                is_active,
                                            },
                                            p8,
                                        ),
                                    ),
                                    None => None,
                                },
                                None => None,
                            },
                            None => None,
                        },
                        None => None,
                    },
                    None => None,
                },
                None => None,
            },
            None => None,
        },
        None => None,
    }
}

/// The stored `VotingSystem` occupies its buffer exactly.
pub open spec fn spec_parse_system(b: Seq<u8>) -> Option<VotingSystemView> {
    match spec_parse_system_at(b, 0) {
        Some((v, p)) => if p == b.len() {
            Some(v)
        } else {
            None
        },
        None => None,
    }
}

pub open spec fn spec_parse_record_at(b: Seq<u8>, pos: int) -> Option<(VoteRecordView, int)> {
    match spec_parse_fixed(b, pos, ID_LEN as int) {
        Some((voter, p1)) => match spec_parse_u32(b, p1) {
            Some((candidate_index, p2)) => match spec_parse_i64(b, p2) {
                Some((timestamp, p3)) => Some(
                    (VoteRecordView { voter, candidate_index, timestamp }, p3),
                ),
                None => None,
            },
            None => None,
        },
        None => None,
    }
}

/// The stored `VoteRecord` occupies its buffer exactly.
pub open spec fn spec_parse_record(b: Seq<u8>) -> Option<VoteRecordView> {
    match spec_parse_record_at(b, 0) {
        Some((v, p)) => if p == b.len() {
            Some(v)
        } else {
            None
        },
        None => None,
    }
}

pub open spec fn spec_parse_instruction_at(b: Seq<u8>, pos: int) -> Option<
    (InstructionView, int),
> {
    match spec_parse_u8(b, pos) {
        Some((tag, p0)) => if tag == 0u8 || tag == 1u8 {
            match spec_parse_bytes(b, p0) {
                Some((name, p1)) => match spec_parse_bytes(b, p1) {
                    Some((description, p2)) => if tag == 0u8 {
                        Some((InstructionView::Initialize { name, description }, p2))
                    } else {
                        Some((InstructionView::AddCandidate { name, description }, p2))
                    },
                    None => None,
                },
                None => None,
            }
        } else if tag == 2u8 {
            match spec_parse_u32(b, p0) {
                Some((candidate_index, p1)) => Some(
                    (InstructionView::Vote { candidate_index }, p1),
                ),
                None => None,
            }
        } else if tag == 3u8 {
            match spec_parse_i64(b, p0) {
                Some((start_time, p1)) => match spec_parse_i64(b, p1) {
                    Some((end_time, p2)) => Some(
                        (InstructionView::SetVotingPeriod { start_time, end_time }, p2),
                    ),
                    None => None,
                },
                None => None,
            }
        } else {
            None
        },
        None => None,
    }
}

/// An instruction payload is consumed whole; unknown tags, truncated
/// and oversized payloads are all rejected.
pub open spec fn spec_parse_instruction(b: Seq<u8>) -> Option<InstructionView> {
    match spec_parse_instruction_at(b, 0) {
        Some((i, p)) => if p == b.len() {
            Some(i)
        } else {
            None
        },
        None => None,
    }
}

// ---------------------------------------------------------------------
// Executable parsing primitives, each proved to implement its
// mathematical counterpart.
// ---------------------------------------------------------------------

pub fn read_u8(b: &Vec<u8>, pos: usize) -> (r: Option<(u8, usize)>)
    ensures
        r is Some <==> spec_parse_u8(b@, pos as int) is Some,
        r is Some ==> {
            let (v, p) = spec_parse_u8(b@, pos as int).unwrap();
            r.unwrap().0 == v && r.unwrap().1 == p
        },
{
    if pos < b.len() {
        Some((b[pos], pos + 1))
    } else {
        None
    }
}

pub fn read_u32(b: &Vec<u8>, pos: usize) -> (r: Option<(u32, usize)>)
    ensures
        r is Some <==> spec_parse_u32(b@, pos as int) is Some,
        r is Some ==> {
            let (v, p) = spec_parse_u32(b@, pos as int).unwrap();
            r.unwrap().0 == v && r.unwrap().1 == p
        },
{
    if pos > b.len() {
        return None;
    }
    if b.len() - pos < 4 {
        return None;
    }
    let s = slice_subrange(b.as_slice(), pos, pos + 4);
    Some((u32_from_le_bytes(s), pos + 4))
}

pub fn read_u64(b: &Vec<u8>, pos: usize) -> (r: Option<(u64, usize)>)
    ensures
        r is Some <==> spec_parse_u64(b@, pos as int) is Some,
        r is Some ==> {
            let (v, p) = spec_parse_u64(b@, pos as int).unwrap();
            r.unwrap().0 == v && r.unwrap().1 == p
        },
{
    if pos > b.len() {
        return None;
    }
    if b.len() - pos < 8 {
        return None;
    }
    let s = slice_subrange(b.as_slice(), pos, pos + 8);
    Some((u64_from_le_bytes(s), pos + 8))
}

pub fn read_i64(b: &Vec<u8>, pos: usize) -> (r: Option<(i64, usize)>)
    ensures
        r is Some <==> spec_parse_i64(b@, pos as int) is Some,
        r is Some ==> {
            let (v, p) = spec_parse_i64(b@, pos as int).unwrap();
            r.unwrap().0 == v && r.unwrap().1 == p
        },
{
    match read_u64(b, pos) {
        Some((n, p)) => Some((n as i64, p)),
        None => None,
    }
}

pub fn read_bool(b: &Vec<u8>, pos: usize) -> (r: Option<(bool, usize)>)
    ensures
        r is Some <==> spec_parse_bool(b@, pos as int) is Some,
        r is Some ==> {
            let (v, p) = spec_parse_bool(b@, pos as int).unwrap();
            r.unwrap().0 == v && r.unwrap().1 == p
        },
{
    if pos < b.len() {
        let byte = b[pos];
        if byte == 0 {
            Some((false, pos + 1))
        } else if byte == 1 {
            Some((true, pos + 1))
        } else {
            None
        }
    } else {
        None
    }
}

pub fn read_fixed(b: &Vec<u8>, pos: usize, n: usize) -> (r: Option<(Vec<u8>, usize)>)
    ensures
        r is Some <==> spec_parse_fixed(b@, pos as int, n as int) is Some,
        r is Some ==> {
            let (v, p) = spec_parse_fixed(b@, pos as int, n as int).unwrap();
            r.unwrap().0@ == v && r.unwrap().1 == p
        },
{
    if pos > b.len() {
        return None;
    }
    if b.len() - pos < n {
        return None;
    }
    let s = slice_subrange(b.as_slice(), pos, pos + n);
    Some((slice_to_vec(s), pos + n))
}

pub fn read_bytes(b: &Vec<u8>, pos: usize) -> (r: Option<(Vec<u8>, usize)>)
    ensures
        r is Some <==> spec_parse_bytes(b@, pos as int) is Some,
        r is Some ==> {
            let (v, p) = spec_parse_bytes(b@, pos as int).unwrap();
            r.unwrap().0@ == v && r.unwrap().1 == p
        },
{
    match read_u32(b, pos) {
        Some((n, p)) => {
            if n as usize > b.len() {
                // A length prefix larger than the buffer cannot be
                // satisfied; the mathematical parser rejects it too.
                assert(spec_parse_fixed(b@, p as int, n as int) is None);
                None
            } else {
                read_fixed(b, p, n as usize)
            }
        },
        None => None,
    }
}

pub fn read_candidate(b: &Vec<u8>, pos: usize) -> (r: Option<(crate::state::Candidate, usize)>)
    ensures
        r is Some <==> spec_parse_candidate(b@, pos as int) is Some,
        r is Some ==> {
            let (v, p) = spec_parse_candidate(b@, pos as int).unwrap();
            r.unwrap().0@ == v && r.unwrap().1 == p
        },
{
    match read_bytes(b, pos) {
        Some((name, p1)) => match read_bytes(b, p1) {
            Some((description, p2)) => match read_u64(b, p2) {
                Some((votes, p3)) => Some(
                    (crate::state::Candidate { name, description, votes }, p3),
                ),
                None => None,
            },
            None => None,
        },
        None => None,
    }
}

pub fn read_candidates(b: &Vec<u8>, pos: usize, n: u32) -> (r: Option<
    (Vec<crate::state::Candidate>, usize),
>)
    ensures
        r is Some <==> spec_parse_candidates(b@, pos as int, n as nat) is Some,
        r is Some ==> {
            let (s, p) = spec_parse_candidates(b@, pos as int, n as nat).unwrap();
            r.unwrap().0@.map_values(|c: crate::state::Candidate| c@) == s && r.unwrap().1 == p
        },
    decreases n,
{
    if n == 0 {
        let out: Vec<crate::state::Candidate> = Vec::new();
        proof {
            assert(out@.map_values(|c: crate::state::Candidate| c@)
                =~= Seq::<CandidateView>::empty());
        }
        Some((out, pos))
    } else {
        match read_candidate(b, pos) {
            Some((c, p1)) => match read_candidates(b, p1, n - 1) {
                Some((mut rest, p2)) => {
                    rest.insert(0, c);
                    proof {
                        let (s, p) = spec_parse_candidates(b@, pos as int, n as nat).unwrap();
                        assert(rest@.map_values(|cc: crate::state::Candidate| cc@) =~= s);
                    }
                    Some((rest, p2))
                },
                None => None,
            },
            None => None,
        }
    }
}

/// Decodes a stored `VotingSystem`; the buffer must hold exactly one
/// well-formed encoding.
pub fn decode_system(b: &Vec<u8>) -> (r: Option<crate::state::VotingSystem>)
    ensures
        r is Some <==> spec_parse_system(b@) is Some,
        r is Some ==> r.unwrap()@ == spec_parse_system(b@).unwrap(),
{
    let admin_pair = match read_fixed(b, 0, ID_LEN) {
        Some(x) => x,
        None => {
            return None;
        },
    };
    let (admin_bytes, p1) = admin_pair;
    let name_pair = match read_bytes(b, p1) {
        Some(x) => x,
        None => {
            return None;
        },
    };
    let (name, p2) = name_pair;
    let desc_pair = match read_bytes(b, p2) {
        Some(x) => x,
        None => {
            return None;
        },
    };
    let (description, p3) = desc_pair;
    let count_pair = match read_u32(b, p3) {
        Some(x) => x,
        None => {
            return None;
        },
    };
    let (count, p4) = count_pair;
    let cands_pair = match read_candidates(b, p4, count) {
        Some(x) => x,
        None => {
            return None;
        },
    };
    let (candidates, p5) = cands_pair;
    let start_pair = match read_i64(b, p5) {
        Some(x) => x,
        None => {
            return None;
        },
    };
    let (start_time, p6) = start_pair;
    let end_pair = match read_i64(b, p6) {
        Some(x) => x,
        None => {
            return None;
        },
    };
    let (end_time, p7) = end_pair;
    let active_pair = match read_bool(b, p7) {
        Some(x) => x,
        None => {
            return None;
        },
    };
    let (is_active, p8) = active_pair;
    if p8 != b.len() {
        return None;
    }
    Some(
        crate::state::VotingSystem {
            admin: crate::state::Pubkey { bytes: admin_bytes },
            name,
            description,
            candidates,
            start_time,
            end_time,
            is_active,
        },
    )
}

/// Decodes a stored `VoteRecord`; the buffer must hold exactly one
/// well-formed encoding.
pub fn decode_record(b: &Vec<u8>) -> (r: Option<crate::state::VoteRecord>)
    ensures
        r is Some <==> spec_parse_record(b@) is Some,
        r is Some ==> r.unwrap()@ == spec_parse_record(b@).unwrap(),
{
    let voter_pair = match read_fixed(b, 0, ID_LEN) {
        Some(x) => x,
        None => {
            return None;
        },
    };
    let (voter_bytes, p1) = voter_pair;
    let idx_pair = match read_u32(b, p1) {
        Some(x) => x,
        None => {
            return None;
        },
    };
    let (candidate_index, p2) = idx_pair;
    let ts_pair = match read_i64(b, p2) {
        Some(x) => x,
        None => {
            return None;
        },
    };
    let (timestamp, p3) = ts_pair;
    if p3 != b.len() {
        return None;
    }
    Some(
        crate::state::VoteRecord {
            voter: crate::state::Pubkey { bytes: voter_bytes },
            candidate_index,
            timestamp,
        },
    )
}

/// Decodes an instruction payload: one tag byte, then the fields of
/// that variant, consuming the payload whole.
pub fn decode_instruction(b: &Vec<u8>) -> (r: Option<crate::instruction::VotingInstruction>)
    ensures
        r is Some <==> spec_parse_instruction(b@) is Some,
        r is Some ==> r.unwrap()@ == spec_parse_instruction(b@).unwrap(),
{
    let tag_pair = match read_u8(b, 0) {
        Some(x) => x,
        None => {
            return None;
        },
    };
    let (tag, p0) = tag_pair;
    if tag == 0 || tag == 1 {
        let name_pair = match read_bytes(b, p0) {
            Some(x) => x,
            None => {
                return None;
            },
        };
        let (name, p1) = name_pair;
        let desc_pair = match read_bytes(b, p1) {
            Some(x) => x,
            None => {
                return None;
            },
        };
        let (description, p2) = desc_pair;
        if p2 != b.len() {
            return None;
        }
        if tag == 0 {
            Some(crate::instruction::VotingInstruction::Initialize { name, description })
        } else {
            Some(crate::instruction::VotingInstruction::AddCandidate { name, description })
        }
    } else if tag == 2 {
        let idx_pair = match read_u32(b, p0) {
            Some(x) => x,
            None => {
                return None;
            },
        };
        let (candidate_index, p1) = idx_pair;
        if p1 != b.len() {
            return None;
        }
        Some(crate::instruction::VotingInstruction::Vote { candidate_index })
    } else if tag == 3 {
        let start_pair = match read_i64(b, p0) {
            Some(x) => x,
            None => {
                return None;
            },
        };
        let (start_time, p1) = start_pair;
        let end_pair = match read_i64(b, p1) {
            Some(x) => x,
            None => {
                return None;
            },
        };
        let (end_time, p2) = end_pair;
        if p2 != b.len() {
            return None;
        }
        Some(crate::instruction::VotingInstruction::SetVotingPeriod { start_time, end_time })
    } else {
        None
    }
}

// ---------------------------------------------------------------------
// Executable encoders, each proved to produce its mathematical
// counterpart.
// ---------------------------------------------------------------------

fn push_all(out: &mut Vec<u8>, src: &Vec<u8>)
    ensures
        final(out)@ == old(out)@ + src@,
{
    let mut i: usize = 0;
    while i < src.len()
        invariant
            i <= src@.len(),
            out@ == old(out)@ + src@.take(i as int),
        decreases src@.len() - i,
    {
        out.push(src[i]);
        proof {
            assert(old(out)@ + src@.take(i as int) + seq![src@[i as int]]
                =~= old(out)@ + src@.take(i + 1 as int));
        }
        i = i + 1;
    }
    proof {
        assert(src@.take(src@.len() as int) =~= src@);
    }
}

fn push_u32_le(out: &mut Vec<u8>, n: u32)
    ensures
        final(out)@ == old(out)@ + spec_encode_u32(n),
{
    let bytes = u32_to_le_bytes(n);
    push_all(out, &bytes);
}

fn push_u64_le(out: &mut Vec<u8>, n: u64)
    ensures
        final(out)@ == old(out)@ + spec_encode_u64(n),
{
    let bytes = u64_to_le_bytes(n);
    push_all(out, &bytes);
}

fn push_i64_le(out: &mut Vec<u8>, n: i64)
    ensures
        final(out)@ == old(out)@ + spec_encode_i64(n),
{
    push_u64_le(out, n as u64);
}

fn push_bool(out: &mut Vec<u8>, v: bool)
    ensures
        final(out)@ == old(out)@ + spec_encode_bool(v),
{
    out.push(if v { 1u8 } else { 0u8 });
    proof {
        assert(old(out)@.push(if v { 1u8 } else { 0u8 }) =~= old(out)@ + spec_encode_bool(v));
    }
}

fn push_len_bytes(out: &mut Vec<u8>, src: &Vec<u8>)
    requires
        src@.len() <= u32::MAX,
    ensures
        final(out)@ == old(out)@ + spec_encode_bytes(src@),
{
    push_u32_le(out, src.len() as u32);
    push_all(out, src);
    proof {
        assert(old(out)@ + spec_encode_u32(src@.len() as u32) + src@
            =~= old(out)@ + spec_encode_bytes(src@));
    }
}

fn push_candidate(out: &mut Vec<u8>, c: &crate::state::Candidate)
    requires
        c.wf(),
    ensures
        final(out)@ == old(out)@ + spec_encode_candidate(c@),
{
    push_len_bytes(out, &c.name);
    push_len_bytes(out, &c.description);
    push_u64_le(out, c.votes);
    proof {
        assert(old(out)@ + spec_encode_bytes(c@.name) + spec_encode_bytes(c@.description)
            + spec_encode_u64(c@.votes) =~= old(out)@ + spec_encode_candidate(c@));
    }
}

fn push_candidates_from(out: &mut Vec<u8>, cands: &Vec<crate::state::Candidate>, i: usize)
    requires
        i <= cands@.len(),
        forall|j: int| 0 <= j < cands@.len() ==> (#[trigger] cands@[j]).wf(),
    ensures
        final(out)@ == old(out)@ + spec_encode_candidates(
            cands@.map_values(|c: crate::state::Candidate| c@).skip(i as int),
        ),
    decreases cands@.len() - i,
{
    let ghost views = cands@.map_values(|c: crate::state::Candidate| c@);
    if i == cands.len() {
        proof {
            assert(views.skip(i as int) =~= Seq::<CandidateView>::empty());
            assert(old(out)@ + Seq::<u8>::empty() =~= old(out)@);
        }
    } else {
        push_candidate(out, &cands[i]);
        push_candidates_from(out, cands, i + 1);
        proof {
            let tail = views.skip(i as int);
            assert(tail[0] == cands@[i as int]@);
            assert(tail.drop_first() =~= views.skip(i + 1 as int));
            assert(old(out)@ + spec_encode_candidate(cands@[i as int]@) + spec_encode_candidates(
                views.skip(i + 1 as int),
            ) =~= old(out)@ + spec_encode_candidates(tail));
        }
    }
}

/// Encodes a `VotingSystem` into a fresh buffer.
pub fn encode_system(v: &crate::state::VotingSystem) -> (r: Vec<u8>)
    requires
        v.wf(),
    ensures
        r@ == spec_encode_system(v@),
{
    proof {
        assert forall|j: int| 0 <= j < v.candidates@.len() implies (
        #[trigger] v.candidates@[j]).wf() by {
            assert(v@.candidates[j] == v.candidates@[j]@);
        }
    }
    let mut out: Vec<u8> = Vec::new();
    push_all(&mut out, &v.admin.bytes);
    push_len_bytes(&mut out, &v.name);
    push_len_bytes(&mut out, &v.description);
    push_u32_le(&mut out, v.candidates.len() as u32);
    push_candidates_from(&mut out, &v.candidates, 0);
    push_i64_le(&mut out, v.start_time);
    push_i64_le(&mut out, v.end_time);
    push_bool(&mut out, v.is_active);
    proof {
        let views = v.candidates@.map_values(|c: crate::state::Candidate| c@);
        assert(views.skip(0) =~= views);
        assert(Seq::<u8>::empty() + v.admin@ =~= v.admin@);
        assert(out@ =~= spec_encode_system(v@));
    }
    out
}

/// Encodes a `VoteRecord` into a fresh buffer.
pub fn encode_record(v: &crate::state::VoteRecord) -> (r: Vec<u8>)
    requires
        v.wf(),
    ensures
        r@ == spec_encode_record(v@),
{
    let mut out: Vec<u8> = Vec::new();
    push_all(&mut out, &v.voter.bytes);
    push_u32_le(&mut out, v.candidate_index);
    push_i64_le(&mut out, v.timestamp);
    proof {
        assert(Seq::<u8>::empty() + v.voter@ =~= v.voter@);
        assert(out@ =~= spec_encode_record(v@));
    }
    out
}

/// Encodes an instruction into a payload.
pub fn encode_instruction(i: &crate::instruction::VotingInstruction) -> (r: Vec<u8>)
    requires
        i.wf(),
    ensures
        r@ == spec_encode_instruction(i@),
{
    let mut out: Vec<u8> = Vec::new();
    match i {
        crate::instruction::VotingInstruction::Initialize { name, description } => {
            out.push(0u8);
            push_len_bytes(&mut out, name);
            push_len_bytes(&mut out, description);
        },
        crate::instruction::VotingInstruction::AddCandidate { name, description } => {
            out.push(1u8);
            push_len_bytes(&mut out, name);
            push_len_bytes(&mut out, description);
        },
        crate::instruction::VotingInstruction::Vote { candidate_index } => {
            out.push(2u8);
            push_u32_le(&mut out, *candidate_index);
        },
        crate::instruction::VotingInstruction::SetVotingPeriod { start_time, end_time } => {
            out.push(3u8);
            push_i64_le(&mut out, *start_time);
            push_i64_le(&mut out, *end_time);
        },
    }
    proof {
        assert(out@ =~= spec_encode_instruction(i@));
    }
    out
}

// ---------------------------------------------------------------------
// The codec laws. Parsing inverts encoding (round trip), and every
// parseable buffer is the encoding of what it parses to (canonicity).
// ---------------------------------------------------------------------

/// A subrange known to hold a concatenation splits into its parts.
proof fn lemma_subrange_split(b: Seq<u8>, pos: int, x: Seq<u8>, y: Seq<u8>)
    requires
        0 <= pos,
        pos + x.len() + y.len() <= b.len(),
        b.subrange(pos, pos + x.len() + y.len()) == x + y,
    ensures
        b.subrange(pos, pos + x.len() as int) == x,
        b.subrange(pos + x.len() as int, pos + x.len() + y.len()) == y,
{
    let whole = b.subrange(pos, pos + x.len() + y.len());
    assert forall|i: int| 0 <= i < x.len() implies b.subrange(pos, pos + x.len() as int)[i]
        == x[i] by {
        assert(whole[i] == (x + y)[i]);
    }
    assert(b.subrange(pos, pos + x.len() as int) =~= x);
    assert forall|i: int| 0 <= i < y.len() implies b.subrange(
        pos + x.len() as int,
        pos + x.len() + y.len(),
    )[i] == y[i] by {
        assert(whole[x.len() + i] == (x + y)[x.len() + i]);
    }
    assert(b.subrange(pos + x.len() as int, pos + x.len() + y.len()) =~= y);
}

proof fn lemma_parse_u32_at(b: Seq<u8>, pos: int, n: u32)
    requires
        0 <= pos,
        pos + 4 <= b.len(),
        b.subrange(pos, pos + 4) == spec_encode_u32(n),
    ensures
        spec_parse_u32(b, pos) == Some((n, pos + 4)),
{
    lemma_auto_spec_u32_to_from_le_bytes();
    assert(b.subrange(pos, pos + 4) == spec_u32_to_le_bytes(n));
    assert(spec_u32_from_le_bytes(spec_u32_to_le_bytes(n)) == n);
}

proof fn lemma_parse_u64_at(b: Seq<u8>, pos: int, n: u64)
    requires
        0 <= pos,
        pos + 8 <= b.len(),
        b.subrange(pos, pos + 8) == spec_encode_u64(n),
    ensures
        spec_parse_u64(b, pos) == Some((n, pos + 8)),
{
    lemma_auto_spec_u64_to_from_le_bytes();
    assert(b.subrange(pos, pos + 8) == spec_u64_to_le_bytes(n));
    assert(spec_u64_from_le_bytes(spec_u64_to_le_bytes(n)) == n);
}

proof fn lemma_parse_i64_at(b: Seq<u8>, pos: int, n: i64)
    requires
        0 <= pos,
        pos + 8 <= b.len(),
        b.subrange(pos, pos + 8) == spec_encode_i64(n),
    ensures
        spec_parse_i64(b, pos) == Some((n, pos + 8)),
{
    lemma_parse_u64_at(b, pos, n as u64);
    assert((n as u64) as i64 == n) by (bit_vector);
}

proof fn lemma_parse_bool_at(b: Seq<u8>, pos: int, v: bool)
    requires
        0 <= pos,
        pos + 1 <= b.len(),
        b.subrange(pos, pos + 1) == spec_encode_bool(v),
    ensures
        spec_parse_bool(b, pos) == Some((v, pos + 1)),
{
    assert(b[pos] == b.subrange(pos, pos + 1)[0]);
}

proof fn lemma_parse_bytes_at(b: Seq<u8>, pos: int, s: Seq<u8>)
    requires
        0 <= pos,
        s.len() <= u32::MAX,
        pos + 4 + s.len() <= b.len(),
        b.subrange(pos, pos + 4 + s.len()) == spec_encode_bytes(s),
    ensures
        spec_parse_bytes(b, pos) == Some((s, pos + 4 + s.len())),
{
    lemma_auto_spec_u32_to_from_le_bytes();
    let e1 = spec_encode_u32(s.len() as u32);
    lemma_subrange_split(b, pos, e1, s);
    lemma_parse_u32_at(b, pos, s.len() as u32);
}

proof fn lemma_parse_candidate_at(b: Seq<u8>, pos: int, c: CandidateView)
    requires
        0 <= pos,
        c.wf(),
        pos + spec_encode_candidate(c).len() <= b.len(),
        b.subrange(pos, pos + spec_encode_candidate(c).len()) == spec_encode_candidate(c),
    ensures
        spec_parse_candidate(b, pos) == Some((c, pos + spec_encode_candidate(c).len())),
{
    lemma_auto_spec_u32_to_from_le_bytes();
    lemma_auto_spec_u64_to_from_le_bytes();
    let e1 = spec_encode_bytes(c.name);
    let e2 = spec_encode_bytes(c.description);
    let e3 = spec_encode_u64(c.votes);
    assert(e1 + e2 + e3 =~= e1 + (e2 + e3));
    lemma_subrange_split(b, pos, e1, e2 + e3);
    lemma_subrange_split(b, pos + e1.len(), e2, e3);
    lemma_parse_bytes_at(b, pos, c.name);
    lemma_parse_bytes_at(b, pos + e1.len(), c.description);
    lemma_parse_u64_at(b, pos + e1.len() + e2.len(), c.votes);
}

proof fn lemma_parse_candidates_at(b: Seq<u8>, pos: int, s: Seq<CandidateView>)
    requires
        0 <= pos,
        forall|i: int| 0 <= i < s.len() ==> (#[trigger] s[i]).wf(),
        pos + spec_encode_candidates(s).len() <= b.len(),
        b.subrange(pos, pos + spec_encode_candidates(s).len()) == spec_encode_candidates(s),
    ensures
        spec_parse_candidates(b, pos, s.len() as nat) == Some(
            (s, pos + spec_encode_candidates(s).len()),
        ),
    decreases s.len(),
{
    if s.len() == 0 {
        assert(s =~= Seq::<CandidateView>::empty());
    } else {
        let e1 = spec_encode_candidate(s[0]);
        let rest = spec_encode_candidates(s.drop_first());
        lemma_subrange_split(b, pos, e1, rest);
        lemma_parse_candidate_at(b, pos, s[0]);
        assert(forall|i: int|
            0 <= i < s.drop_first().len() ==> (#[trigger] s.drop_first()[i]).wf());
        lemma_parse_candidates_at(b, pos + e1.len(), s.drop_first());
        assert(seq![s[0]] + s.drop_first() =~= s);
    }
}

/// Round trip: a well-formed `VotingSystem` decodes from its encoding.
pub proof fn lemma_system_round_trip(v: VotingSystemView)
    requires
        v.wf(),
    ensures
        spec_parse_system(spec_encode_system(v)) == Some(v),
{
    let b = spec_encode_system(v);
    let e0 = v.admin;
    let e1 = spec_encode_bytes(v.name);
    let e2 = spec_encode_bytes(v.description);
    let e3 = spec_encode_u32(v.candidates.len() as u32);
    let e4 = spec_encode_candidates(v.candidates);
    let e5 = spec_encode_i64(v.start_time);
    let e6 = spec_encode_i64(v.end_time);
    let e7 = spec_encode_bool(v.is_active);
    lemma_auto_spec_u32_to_from_le_bytes();
    lemma_auto_spec_u64_to_from_le_bytes();
    assert(b.subrange(0, b.len() as int) =~= b);
    assert(b =~= e0 + (e1 + (e2 + (e3 + (e4 + (e5 + (e6 + e7)))))));
    lemma_subrange_split(b, 0, e0, e1 + (e2 + (e3 + (e4 + (e5 + (e6 + e7))))));
    let p1 = e0.len() as int;
    lemma_subrange_split(b, p1, e1, e2 + (e3 + (e4 + (e5 + (e6 + e7)))));
    let p2 = p1 + e1.len();
    lemma_subrange_split(b, p2, e2, e3 + (e4 + (e5 + (e6 + e7))));
    let p3 = p2 + e2.len();
    lemma_subrange_split(b, p3, e3, e4 + (e5 + (e6 + e7)));
    let p4 = p3 + e3.len();
    lemma_subrange_split(b, p4, e4, e5 + (e6 + e7));
    let p5 = p4 + e4.len();
    lemma_subrange_split(b, p5, e5, e6 + e7);
    let p6 = p5 + e5.len();
    lemma_subrange_split(b, p6, e6, e7);
    let p7 = p6 + e6.len();
    lemma_parse_bytes_at(b, p1, v.name);
    lemma_parse_bytes_at(b, p2, v.description);
    lemma_parse_u32_at(b, p3, v.candidates.len() as u32);
    assert forall|i: int| 0 <= i < v.candidates.len() implies (#[trigger] v.candidates[i]).wf()
        by {}
    lemma_parse_candidates_at(b, p4, v.candidates);
    lemma_parse_i64_at(b, p5, v.start_time);
    lemma_parse_i64_at(b, p6, v.end_time);
    lemma_parse_bool_at(b, p7, v.is_active);
}

/// Round trip: a well-formed `VoteRecord` decodes from its encoding.
pub proof fn lemma_record_round_trip(v: VoteRecordView)
    requires
        v.wf(),
    ensures
        spec_parse_record(spec_encode_record(v)) == Some(v),
{
    let b = spec_encode_record(v);
    let e0 = v.voter;
    let e1 = spec_encode_u32(v.candidate_index);
    let e2 = spec_encode_i64(v.timestamp);
    lemma_auto_spec_u32_to_from_le_bytes();
    lemma_auto_spec_u64_to_from_le_bytes();
    assert(b.subrange(0, b.len() as int) =~= b);
    assert(b =~= e0 + (e1 + e2));
    lemma_subrange_split(b, 0, e0, e1 + e2);
    let p1 = e0.len() as int;
    lemma_subrange_split(b, p1, e1, e2);
    let p2 = p1 + e1.len();
    lemma_parse_u32_at(b, p1, v.candidate_index);
    lemma_parse_i64_at(b, p2, v.timestamp);
}

/// Round trip: a well-formed instruction decodes from its payload.
pub proof fn lemma_instruction_round_trip(i: InstructionView)
    requires
        i.wf(),
    ensures
        spec_parse_instruction(spec_encode_instruction(i)) == Some(i),
{
    let b = spec_encode_instruction(i);
    lemma_auto_spec_u32_to_from_le_bytes();
    lemma_auto_spec_u64_to_from_le_bytes();
    match i {
        InstructionView::Initialize { name, description } | InstructionView::AddCandidate {
            name,
            description,
        } => {
            let tag = if i is Initialize {
                seq![0u8]
            } else {
                seq![1u8]
            };
            let e1 = spec_encode_bytes(name);
            let e2 = spec_encode_bytes(description);
            assert(b.subrange(0, b.len() as int) =~= b);
            assert(b =~= tag + (e1 + e2));
            lemma_subrange_split(b, 0, tag, e1 + e2);
            lemma_subrange_split(b, 1, e1, e2);
            assert(b[0] == b.subrange(0, 1)[0]);
            lemma_parse_bytes_at(b, 1, name);
            lemma_parse_bytes_at(b, 1 + e1.len() as int, description);
        },
        InstructionView::Vote { candidate_index } => {
            let tag = seq![2u8];
            let e1 = spec_encode_u32(candidate_index);
            assert(b.subrange(0, b.len() as int) =~= b);
            assert(b =~= tag + e1);
            lemma_subrange_split(b, 0, tag, e1);
            assert(b[0] == b.subrange(0, 1)[0]);
            lemma_parse_u32_at(b, 1, candidate_index);
        },
        InstructionView::SetVotingPeriod { start_time, end_time } => {
            let tag = seq![3u8];
            let e1 = spec_encode_i64(start_time);
            let e2 = spec_encode_i64(end_time);
            assert(b.subrange(0, b.len() as int) =~= b);
            assert(b =~= tag + (e1 + e2));
            lemma_subrange_split(b, 0, tag, e1 + e2);
            lemma_subrange_split(b, 1, e1, e2);
            assert(b[0] == b.subrange(0, 1)[0]);
            lemma_parse_i64_at(b, 1, start_time);
            lemma_parse_i64_at(b, 1 + e1.len() as int, end_time);
        },
    }
}

/// Canonicity of byte strings: what parsed is the encoding of itself.
proof fn lemma_canonical_bytes(b: Seq<u8>, pos: int)
    requires
        spec_parse_bytes(b, pos) is Some,
    ensures
        ({
            let (s, p) = spec_parse_bytes(b, pos).unwrap();
            &&& spec_encode_bytes(s) == b.subrange(pos, p)
            &&& pos + 4 <= p <= b.len()
            &&& s.len() <= u32::MAX
        }),
{
    lemma_auto_spec_u32_to_from_le_bytes();
    let (n, p1) = spec_parse_u32(b, pos).unwrap();
    assert(spec_u32_to_le_bytes(spec_u32_from_le_bytes(b.subrange(pos, pos + 4))) == b.subrange(
        pos,
        pos + 4,
    ));
    let (s, p) = spec_parse_bytes(b, pos).unwrap();
    assert(s.len() as u32 == n);
    assert(spec_encode_bytes(s) =~= b.subrange(pos, p)) by {
        assert(spec_encode_u32(s.len() as u32) == b.subrange(pos, pos + 4));
        assert(b.subrange(pos, pos + 4) + b.subrange(p1, p) =~= b.subrange(pos, p));
    }
}

/// Canonicity of one candidate record.
proof fn lemma_canonical_candidate(b: Seq<u8>, pos: int)
    requires
        spec_parse_candidate(b, pos) is Some,
    ensures
        ({
            let (c, p) = spec_parse_candidate(b, pos).unwrap();
            &&& spec_encode_candidate(c) == b.subrange(pos, p)
            &&& pos + 8 <= p <= b.len()
            &&& c.wf()
        }),
{
    lemma_auto_spec_u64_to_from_le_bytes();
    lemma_canonical_bytes(b, pos);
    let (name, p1) = spec_parse_bytes(b, pos).unwrap();
    lemma_canonical_bytes(b, p1);
    let (description, p2) = spec_parse_bytes(b, p1).unwrap();
    let (votes, p3) = spec_parse_u64(b, p2).unwrap();
    assert(spec_u64_to_le_bytes(spec_u64_from_le_bytes(b.subrange(p2, p2 + 8))) == b.subrange(
        p2,
        p2 + 8,
    ));
    let (c, p) = spec_parse_candidate(b, pos).unwrap();
    assert(spec_encode_candidate(c) =~= b.subrange(pos, p)) by {
        assert(b.subrange(pos, p1) + b.subrange(p1, p2) + b.subrange(p2, p) =~= b.subrange(
            pos,
            p,
        ));
    }
}

/// Canonicity of a candidate list of known count.
proof fn lemma_canonical_candidates(b: Seq<u8>, pos: int, n: nat)
    requires
        spec_parse_candidates(b, pos, n) is Some,
        0 <= pos <= b.len(),
    ensures
        ({
            let (s, p) = spec_parse_candidates(b, pos, n).unwrap();
            &&& spec_encode_candidates(s) == b.subrange(pos, p)
            &&& s.len() == n
            &&& pos <= p <= b.len()
            &&& forall|i: int| 0 <= i < s.len() ==> (#[trigger] s[i]).wf()
        }),
    decreases n,
{
    if n == 0 {
        assert(spec_encode_candidates(Seq::<CandidateView>::empty()) =~= b.subrange(pos, pos));
    } else {
        lemma_canonical_candidate(b, pos);
        let (c, p1) = spec_parse_candidate(b, pos).unwrap();
        lemma_canonical_candidates(b, p1, (n - 1) as nat);
        let (rest, p) = spec_parse_candidates(b, p1, (n - 1) as nat).unwrap();
        let s = seq![c] + rest;
        assert(s[0] == c);
        assert(s.drop_first() =~= rest);
        assert(spec_encode_candidates(s) =~= b.subrange(pos, p)) by {
            assert(spec_encode_candidates(s) == spec_encode_candidate(c) + spec_encode_candidates(
                rest,
            ));
            assert(b.subrange(pos, p1) + b.subrange(p1, p) =~= b.subrange(pos, p));
        }
        assert forall|i: int| 0 <= i < s.len() implies (#[trigger] s[i]).wf() by {
            if i > 0 {
                assert(s[i] == rest[i - 1]);
            }
        }
    }
}

/// Canonicity: a buffer holding a stored `VotingSystem` is exactly the
/// encoding of the decoded record, and that record is well formed.
pub proof fn lemma_system_canonical(b: Seq<u8>)
    requires
        spec_parse_system(b) is Some,
    ensures
        ({
            let v = spec_parse_system(b).unwrap();
            &&& spec_encode_system(v) == b
            &&& v.wf()
        }),
{
    lemma_auto_spec_u32_to_from_le_bytes();
    lemma_auto_spec_u64_to_from_le_bytes();
    let (v, pend) = spec_parse_system_at(b, 0).unwrap();
    let (admin, p1) = spec_parse_fixed(b, 0, ID_LEN as int).unwrap();
    lemma_canonical_bytes(b, p1);
    let (name, p2) = spec_parse_bytes(b, p1).unwrap();
    lemma_canonical_bytes(b, p2);
    let (description, p3) = spec_parse_bytes(b, p2).unwrap();
    let (count, p4) = spec_parse_u32(b, p3).unwrap();
    assert(spec_u32_to_le_bytes(spec_u32_from_le_bytes(b.subrange(p3, p3 + 4))) == b.subrange(
        p3,
        p3 + 4,
    ));
    lemma_canonical_candidates(b, p4, count as nat);
    let (candidates, p5) = spec_parse_candidates(b, p4, count as nat).unwrap();
    let (start_time, p6) = spec_parse_i64(b, p5).unwrap();
    let (end_time, p7) = spec_parse_i64(b, p6).unwrap();
    let (is_active, p8) = spec_parse_bool(b, p7).unwrap();
    let su = spec_u64_from_le_bytes(b.subrange(p5, p5 + 8));
    let eu = spec_u64_from_le_bytes(b.subrange(p6, p6 + 8));
    assert((su as i64) as u64 == su) by (bit_vector);
    assert((eu as i64) as u64 == eu) by (bit_vector);
    assert(spec_u64_to_le_bytes(su) == b.subrange(p5, p5 + 8));
    assert(spec_u64_to_le_bytes(eu) == b.subrange(p6, p6 + 8));
    assert(spec_encode_i64(start_time) == b.subrange(p5, p6));
    assert(spec_encode_i64(end_time) == b.subrange(p6, p7));
    assert(spec_encode_bool(is_active) =~= b.subrange(p7, p8));
    assert(v.candidates.len() as u32 == count);
    assert(spec_encode_u32(v.candidates.len() as u32) == b.subrange(p3, p4));
    assert(spec_encode_system(v) =~= b) by {
        assert(admin =~= b.subrange(0, p1));
        assert(b.subrange(0, p1) + b.subrange(p1, p2) =~= b.subrange(0, p2));
        assert(b.subrange(0, p2) + b.subrange(p2, p3) =~= b.subrange(0, p3));
        assert(b.subrange(0, p3) + b.subrange(p3, p4) =~= b.subrange(0, p4));
        assert(b.subrange(0, p4) + b.subrange(p4, p5) =~= b.subrange(0, p5));
        assert(b.subrange(0, p5) + b.subrange(p5, p6) =~= b.subrange(0, p6));
        assert(b.subrange(0, p6) + b.subrange(p6, p7) =~= b.subrange(0, p7));
        assert(b.subrange(0, p7) + b.subrange(p7, p8) =~= b.subrange(0, p8));
        assert(b.subrange(0, p8) =~= b);
    }
}

/// Canonicity of a stored `VoteRecord`.
pub proof fn lemma_record_canonical(b: Seq<u8>)
    requires
        spec_parse_record(b) is Some,
    ensures
        ({
            let v = spec_parse_record(b).unwrap();
            &&& spec_encode_record(v) == b
            &&& v.wf()
        }),
{
    lemma_auto_spec_u32_to_from_le_bytes();
    lemma_auto_spec_u64_to_from_le_bytes();
    let (v, pend) = spec_parse_record_at(b, 0).unwrap();
    let (voter, p1) = spec_parse_fixed(b, 0, ID_LEN as int).unwrap();
    let (candidate_index, p2) = spec_parse_u32(b, p1).unwrap();
    let (timestamp, p3) = spec_parse_i64(b, p2).unwrap();
    assert(spec_u32_to_le_bytes(spec_u32_from_le_bytes(b.subrange(p1, p1 + 4))) == b.subrange(
        p1,
        p1 + 4,
    ));
    let tu = spec_u64_from_le_bytes(b.subrange(p2, p2 + 8));
    assert((tu as i64) as u64 == tu) by (bit_vector);
    assert(spec_u64_to_le_bytes(tu) == b.subrange(p2, p2 + 8));
    assert(spec_encode_record(v) =~= b) by {
        assert(voter =~= b.subrange(0, p1));
        assert(b.subrange(0, p1) + b.subrange(p1, p2) =~= b.subrange(0, p2));
        assert(b.subrange(0, p2) + b.subrange(p2, p3) =~= b.subrange(0, p3));
        assert(b.subrange(0, p3) =~= b);
    }
}

/// Changing only a candidate's tally leaves the encoded length of the
/// candidate list unchanged.
pub proof fn lemma_encode_candidates_len_update(s: Seq<CandidateView>, i: int, c: CandidateView)
    requires
        0 <= i < s.len(),
        c.name == s[i].name,
        c.description == s[i].description,
    ensures
        spec_encode_candidates(s.update(i, c)).len() == spec_encode_candidates(s).len(),
    decreases s.len(),
{
    lemma_auto_spec_u64_to_from_le_bytes();
    let s2 = s.update(i, c);
    if i == 0 {
        assert(s2[0] == c);
        assert(s2.drop_first() =~= s.drop_first());
        assert(spec_encode_candidate(c).len() == spec_encode_candidate(s[0]).len());
    } else {
        assert(s2[0] == s[0]);
        assert(s2.drop_first() =~= s.drop_first().update(i - 1, c));
        lemma_encode_candidates_len_update(s.drop_first(), i - 1, c);
    }
}

/// Two systems that agree on their identity, text and candidate list
/// lengths encode to the same length: the voting window and the active
/// flag are fixed-width.
pub proof fn lemma_encode_system_len(v1: VotingSystemView, v2: VotingSystemView)
    requires
        v1.admin.len() == v2.admin.len(),
        v1.name == v2.name,
        v1.description == v2.description,
        v1.candidates.len() == v2.candidates.len(),
        spec_encode_candidates(v1.candidates).len() == spec_encode_candidates(v2.candidates).len(),
    ensures
        spec_encode_system(v1).len() == spec_encode_system(v2).len(),
{
    lemma_auto_spec_u32_to_from_le_bytes();
    lemma_auto_spec_u64_to_from_le_bytes();
}

} // verus!
