//! A name-registry ledger: accounts claim exclusive, time-limited ownership of
//! textual keys ("domains") through a commit-reveal reservation scheme, paying a
//! fee proportional to key length and claim duration. Fees are held in escrow and
//! become refundable once the claim expires.
//!
//! The registry is a deterministic state machine: the hosting environment's
//! inputs (caller identity, current time, value attached to the call) enter as
//! plain parameters, and outputs it must perform (value transfers, event data)
//! are returned as plain values.

pub mod assoc;
pub mod bytemap;
pub mod domain_map;
pub mod errors;
pub mod escrow_map;
pub mod hashing;
pub mod laws;
pub mod pricing;
pub mod registry;
pub mod types;
