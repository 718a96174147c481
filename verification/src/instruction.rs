//! The instruction set: the tagged union every invocation carries.

use vstd::prelude::*;

verus! {

/// One instruction, decoded from the invocation payload.
#[derive(Clone, Debug, PartialEq, Eq)]
pub enum VotingInstruction {
    /// Create a fresh voting topic in the target account.
    Initialize { name: Vec<u8>, description: Vec<u8> },
    /// Append a candidate to the topic's list.
    AddCandidate { name: Vec<u8>, description: Vec<u8> },
    /// Cast a vote for the candidate at the given index.
    Vote { candidate_index: u32 },
    /// Set the voting window and open voting.
    SetVotingPeriod { start_time: i64, end_time: i64 },
}

/// The mathematical shape of a `VotingInstruction`.
pub ghost enum InstructionView {
    Initialize { name: Seq<u8>, description: Seq<u8> },
    AddCandidate { name: Seq<u8>, description: Seq<u8> },
    Vote { candidate_index: u32 },
    SetVotingPeriod { start_time: i64, end_time: i64 },
}

impl View for VotingInstruction {
    type V = InstructionView;

    open spec fn view(&self) -> InstructionView {
        match self {
            VotingInstruction::Initialize { name, description } => InstructionView::Initialize {
                name: name@,
                description: description@,
            },
            VotingInstruction::AddCandidate { name, description } => InstructionView::AddCandidate {
                name: name@,
                description: description@,
            },
            VotingInstruction::Vote { candidate_index } => InstructionView::Vote {
                candidate_index: *candidate_index,
            },
            VotingInstruction::SetVotingPeriod { start_time, end_time } => (
                InstructionView::SetVotingPeriod { start_time: *start_time, end_time: *end_time }
            ),
        }
    }
}

impl InstructionView {
    /// Text fields must be length-prefixable by a 32-bit count.
    pub open spec fn wf(self) -> bool {
        match self {
            InstructionView::Initialize { name, description } => {
                name.len() <= u32::MAX && description.len() <= u32::MAX
            },
            InstructionView::AddCandidate { name, description } => {
                name.len() <= u32::MAX && description.len() <= u32::MAX
            },
            InstructionView::Vote { .. } => true,
            InstructionView::SetVotingPeriod { .. } => true,
        }
    }
}

impl VotingInstruction {
    pub open spec fn wf(&self) -> bool {
        self@.wf()
    }
}

} // verus!
