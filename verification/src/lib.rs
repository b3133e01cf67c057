//! A chat-room state whose execution authority can be handed off between a
//! slow, globally consistent base context and a fast, temporarily exclusive
//! delegated context.
//!
//! The heart of the library is the ownership-handoff protocol: a room may be
//! mutated only while the base context holds authority; `delegate` hands
//! authority to the exclusive context and `undelegate` returns it. Every
//! transition either commits whole or leaves the room exactly as it was.

use vstd::prelude::*;

pub mod errors;
pub mod history;
pub mod laws;
pub mod ledger;
pub mod identity;
pub mod message;
pub mod room;

verus! {

/// Maximum number of messages a room's history retains; on overflow the
/// oldest message is evicted first.
pub const CAPACITY: usize = 20;

} // verus!
