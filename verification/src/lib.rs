//! Verified core of a small turn-based multiplayer game server: the error
//! vocabulary, the length-prefixed wire framing, the player registry and the
//! lobby state machine that clients and the server thread drive.

pub mod client;
pub mod data;
pub mod error;
pub mod event;
pub mod message;
pub mod server;

use vstd::prelude::*;

verus! {

} // verus!
