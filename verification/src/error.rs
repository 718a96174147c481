//! The tagged failure outcomes of every instruction.

use vstd::prelude::*;

verus! {

/// Every way an instruction can be rejected. A rejection carries no
/// partial writes: the caller discards all buffer changes on error.
#[derive(Clone, Copy, Debug, PartialEq, Eq, Structural)]
pub enum VoteError {
    /// The instruction payload had an unknown tag or was truncated.
    MalformedInstruction,
    /// The account list was shorter than the instruction requires.
    MissingAccount,
    /// The required identity did not authorize the call.
    MissingAuthorization,
    /// A state account's owner is not this program.
    WrongOwner,
    /// The caller is authenticated but is not the stored admin.
    Unauthorized,
    /// The target account is not funded above the reserve threshold.
    InsufficientReserve,
    /// A supplied argument is invalid (e.g. an empty voting window).
    InvalidArgument,
    /// The candidate index is out of range.
    InvalidCandidate,
    /// Voting is inactive or the current time is outside the window.
    VotingNotOpen,
    /// The vote-receipt buffer is already occupied.
    AlreadyVoted,
    /// A stored record failed to decode, or a record cannot be
    /// re-encoded within the account buffer's capacity.
    EncodingFailure,
}

} // verus!
