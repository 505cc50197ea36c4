//! What the agent is configured with at startup.

use vstd::prelude::*;

verus! {

/// The settings that every handler reads. They are loaded once, before the
/// first event, and never change afterwards.
#[derive(Debug, Clone, PartialEq, Eq)]
pub struct AgentConfig {
    /// The agent's own user identifier.
    pub own_identity: String,
    /// The identifier of the completion model.
    pub model: String,
    /// The reference document that is put in front of every user message.
    pub reference_document: String,
}

} // verus!
