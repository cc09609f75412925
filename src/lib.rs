//! A per-owner counter record kept at a deterministic ledger address.
//!
//! Each owner has at most one record, stored at the address derived from a
//! fixed namespace tag and the owner's key. Only the record's authority may
//! change or close it, and the count never leaves the range of `u64`.
pub mod key;
pub mod address;
pub mod record;
pub mod ledger;
pub mod program;
pub mod laws;
