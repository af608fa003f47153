//! Verifier-side bookkeeping for sumcheck-based query proofs, and the
//! row-window (LIMIT / OFFSET) operator built on it.
pub mod scalar;
pub mod verification_builder;
pub mod final_round_builder;
pub mod first_round_builder;
pub mod slice_exec;
