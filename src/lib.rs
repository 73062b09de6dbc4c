//! Program-owned ledger slots addressed by seed-derived addresses: a
//! journal whose entries live at `[title, owner]`, and polls and candidates
//! that live at `[poll_id]` and `[poll_id, candidate_name]`.
pub mod address;
pub mod error;
pub mod journal;
pub mod slots;
pub mod voting;
