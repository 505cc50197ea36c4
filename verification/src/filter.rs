//! Which messages the agent answers.
//!
//! A message is eligible if it arrives in a room that the agent has joined,
//! is a text message, and was not written by the agent itself. Everything else
//! is ordinary traffic and is rejected without any effect.

use crate::room::Membership;
use vstd::prelude::*;

verus! {

/// The two kinds of message the filter tells apart.
#[derive(Debug, Clone, Copy, PartialEq, Eq, Structural)]
pub enum MessageKind {
    Text,
    Other,
}

/// What a message carries. Only a text message has a body.
#[derive(Debug, Clone, PartialEq, Eq)]
pub enum MessageContent {
    Text(String),
    Other,
}

/// One chat message as the transport reports it.
#[derive(Debug, Clone, PartialEq, Eq)]
pub struct IncomingMessage {
    /// Who wrote the message.
    pub sender: String,
    /// The room it was posted to.
    pub room_id: String,
    pub content: MessageContent,
}

/// Why a message is not answered.
#[derive(Debug, Clone, Copy, PartialEq, Eq, Structural)]
pub enum Rejection {
    /// The agent is not an active member of the room.
    NotJoined,
    /// The message is not a text message.
    NotText,
    /// The agent wrote the message itself.
    SelfAuthored,
}

/// The filter's verdict.
#[derive(Debug, Clone, Copy, PartialEq, Eq, Structural)]
pub enum Eligibility {
    Eligible,
    Rejected(Rejection),
}

impl IncomingMessage {
    /// The kind of the message.
    pub open spec fn spec_kind(self) -> MessageKind {
        match self.content {
            MessageContent::Text(_) => MessageKind::Text,
            MessageContent::Other => MessageKind::Other,
        }
    }

    /// The body of a text message; nothing for any other kind.
    pub open spec fn spec_body(self) -> Option<Seq<char>> {
        match self.content {
            MessageContent::Text(body) => Some(body@),
            MessageContent::Other => None,
        }
    }

    /// The kind of the message.
    pub fn kind(&self) -> (kind: MessageKind)
        ensures
            kind == self.spec_kind(),
    {
        match &self.content {
            MessageContent::Text(_) => MessageKind::Text,
            MessageContent::Other => MessageKind::Other,
        }
    }

    /// The body of a text message; `None` for any other kind.
    pub fn body(&self) -> (body: Option<&String>)
        ensures
            body is Some <==> self.spec_kind() == MessageKind::Text,
            body matches Some(text) ==> self.content == MessageContent::Text(*text),
    {
        match &self.content {
            MessageContent::Text(text) => Some(text),
            MessageContent::Other => None,
        }
    }
}

/// The verdict on a message: the first reason that applies, in the order
/// room, kind, sender; eligible if none does.
pub open spec fn verdict(
    message: IncomingMessage,
    membership: Membership,
    own_identity: Seq<char>,
) -> Eligibility {
    if !(membership is Joined) {
        Eligibility::Rejected(Rejection::NotJoined)
    } else if message.spec_kind() != MessageKind::Text {
        Eligibility::Rejected(Rejection::NotText)
    } else if message.sender@ == own_identity {
        Eligibility::Rejected(Rejection::SelfAuthored)
    } else {
        Eligibility::Eligible
    }
}

/// Whether the agent wrote the message itself.
pub fn is_own_message(message: &IncomingMessage, own_identity: &String) -> (own: bool)
    ensures
        own == (message.sender@ == own_identity@),
{
    message.sender == *own_identity
}

/// Decides whether a message is answered. It has no effect of any kind.
pub fn classify(message: &IncomingMessage, membership: Membership, own_identity: &String) -> (result:
    Eligibility)
    ensures
        result == verdict(*message, membership, own_identity@),
{
    match membership {
        Membership::Joined => {},
        _ => {
            return Eligibility::Rejected(Rejection::NotJoined);
        },
    }
    match &message.content {
        MessageContent::Text(_) => {},
        MessageContent::Other => {
            return Eligibility::Rejected(Rejection::NotText);
        },
    }
    if is_own_message(message, own_identity) {
        return Eligibility::Rejected(Rejection::SelfAuthored);
    }
    Eligibility::Eligible
}

/// A message is eligible exactly if it is a text message from somebody else in
/// a room that the agent has joined. In particular each of the three defects
/// alone is enough to reject it.
pub proof fn lemma_eligible_iff(
    message: IncomingMessage,
    membership: Membership,
    own_identity: Seq<char>,
)
    ensures
        verdict(message, membership, own_identity) is Eligible <==> (membership is Joined
            && message.spec_kind() == MessageKind::Text && message.sender@ != own_identity),
        message.spec_kind() != MessageKind::Text ==> verdict(message, membership, own_identity)
            is Rejected,
        message.sender@ == own_identity ==> verdict(message, membership, own_identity)
            is Rejected,
        !(membership is Joined) ==> verdict(message, membership, own_identity)
            == Eligibility::Rejected(Rejection::NotJoined),
{
}

} // verus!
