//! State-transition logic for a voting ledger record.
//!
//! The library validates authorization and timing invariants over
//! externally supplied account buffers and produces a new, internally
//! consistent account state, or a tagged rejection.

pub mod codec;
pub mod error;
pub mod instruction;
pub mod laws;
pub mod processor;
pub mod state;
