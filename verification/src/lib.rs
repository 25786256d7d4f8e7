//! Core engine of a small client/server text adventure game: the framed
//! binary wire protocol, the login/signup handshake, the per-connection
//! session state machine with its keepalive algorithm, the command
//! dispatcher, and the randomized game-event engine (experience, leveling,
//! item generation), all verified against their stated contracts.

pub mod auth;
pub mod codec;
pub mod config;
pub mod dispatch;
pub mod frames;
pub mod item;
pub mod level;
pub mod messages;
pub mod output;
pub mod rng;
pub mod session;
pub mod store;
pub mod time;
pub mod wire;

use vstd::prelude::*;

verus! {

/// Seconds between keepalive probes sent by the server.
pub const KEEPALIVE_INTERVAL: u64 = 20;

} // verus!
