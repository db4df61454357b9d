//! Record lifecycle and validation for two small on-chain ledgers: a personal
//! journal of dated entries and a blog with posts. Records are keyed by a
//! deterministic byte string derived from their immutable fields plus the
//! owner's identity; creation is unique per key, and mutation or deletion is
//! gated on the stored authority.

pub mod identity;
pub mod errors;
pub mod seeds;
pub mod journal;
pub mod blog;
