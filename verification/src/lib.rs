//! The decisions of a terminal chat client, verified.
//!
//! The larger part is a two-tier cache for lookups against a chat service:
//! key derivation ([`digest`]), the persisted format ([`codec`]), the two
//! forms of a value ([`value`], [`bitmap`]), the bounded hot tier
//! ([`store`]), the populate protocol ([`populate`], [`lookup`],
//! [`response`]) and the bounded fetching of emote images ([`ingest`]).
//! The rest is what the screen does with keys and messages ([`tui`],
//! [`event`], [`text`], [`config`]).
//!
//! Nothing here reads, writes, sends or waits: a driver does that and hands
//! the library plain values.

pub mod bitmap;
pub mod codec;
pub mod config;
pub mod digest;
pub mod event;
pub mod ingest;
pub mod lookup;
pub mod populate;
pub mod response;
pub mod store;
pub mod text;
pub mod tui;
pub mod value;
