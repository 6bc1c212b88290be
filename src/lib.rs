//! An end-to-end encrypted group and channel messaging protocol whose
//! ciphertexts travel as chat outputs on a public ledger.
//!
//! - `prim`: scalars, points, hashing, the cipher and base64, from outside
//!   crates behind named results.
//! - `message`: the chat output, its wire encoding, cloaking, keys,
//!   encryption and signature.
//! - `keys`: key pairs, deterministic randomness and chain codes.
//! - `roster`: group members, eviction, onboarding and rekeying.
//! - `onboard`: the owner-signed chunks of an onboarding member list.
//! - `group`, `channel`: the state machines of groups and channels.
//! - `chat`: the aggregator that classifies observed outputs and sends.
//! - `api`: the token envelope of the surrounding API.
//! - `laws`: properties that relate several of the above.

pub mod api;
pub mod bytes;
pub mod channel;
pub mod chat;
pub mod error;
pub mod group;
pub mod keys;
pub mod laws;
pub mod message;
pub mod onboard;
pub mod prim;
pub mod roster;
