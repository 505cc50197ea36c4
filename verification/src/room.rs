//! What the agent knows of a room when an event arrives.

use vstd::prelude::*;

verus! {

/// The agent's own standing in a room.
#[derive(Debug, Clone, Copy, PartialEq, Eq, Structural)]
pub enum Membership {
    /// The agent was invited and has not joined yet.
    Invited,
    /// The agent is an active member.
    Joined,
    /// The agent has left the room, or was never in it.
    Left,
}

} // verus!
