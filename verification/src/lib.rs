//! An access-control ledger for datasets.
//!
//! The crate tracks who owns a dataset record, who has purchased or been
//! granted access to it, and enforces limits on re-sharing that access. It
//! defines the fixed-layout binary encoding of every persistent record and
//! instruction, and the instruction processor: the deterministic state
//! machine that validates authorization and mutates records atomically.
//!
//! The hosting ledger runtime, wallet management, network submission and the
//! payment-transfer mechanism are external collaborators: the processor only
//! states the contract it expects from them. Record locations are derived
//! deterministically from seeds through the host chain's program-derived
//! address scheme.

pub mod addresses;
pub mod error;
pub mod index_chain;
pub mod instruction;
pub mod laws;
pub mod layout;
pub mod processor;
pub mod state;
