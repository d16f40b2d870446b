//! Allocation of fixed-digit-length numeric identifiers for conference room
//! names, with a durable bidirectional id/name mapping.
//!
//! The crate has three parts: a deterministic identifier generator that hashes
//! a normalized name into a number with an exact decimal digit count
//! ([`hashing`]), a name normalizer that lower-cases and percent-encodes a
//! room name while keeping its `@` separator ([`normalize`]), and a resolver
//! over a durable key-value store that serves lookups by id and idempotent
//! creation by name ([`conference`], [`store`]).

pub mod conference;
pub mod hashing;
pub mod normalize;
pub mod phone_list;
pub mod store;
