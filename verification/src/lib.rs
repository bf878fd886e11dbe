//! Verified core of a real-time chat relay: the room-membership registry
//! (hub), the per-connection protocol state machine, and the message
//! envelope model they exchange.

pub mod envelope;
pub mod hub;
pub mod session;
pub mod response_status;
pub mod status;
pub mod user_data;
pub mod auth;
pub mod email;

use vstd::prelude::*;

verus! {

/// Identifies one session's outbound path. The hub stores it next to the
/// user identifier and hands it back on broadcast; the surrounding server
/// maps it to the actual transport channel.
pub type Capability = u64;

} // verus!
