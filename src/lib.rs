//! A read cache for guild, channel, member, role and voice-state data kept in
//! a remote key-value store: key addressing, decoding of stored records into
//! typed objects, and the write plans that keep the denormalized membership
//! sets consistent.

pub mod error;
pub mod guild;
pub mod keys;
pub mod model;
pub mod number;
pub mod record;
pub mod store;
pub mod voice;
pub mod writes;
