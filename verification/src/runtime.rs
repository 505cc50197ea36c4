//! Which handlers an event goes to.
//!
//! The transport reports two kinds of event. Each kind has its handlers, in a
//! fixed order; every handler of a kind sees every event of that kind, and each
//! runs as a unit of work of its own, so that none waits for another.

use vstd::prelude::*;

verus! {

/// The kinds of event the transport reports.
#[derive(Debug, Clone, Copy, PartialEq, Eq, Structural)]
pub enum EventKind {
    /// The membership of some user in some room changed.
    MembershipChanged,
    /// A message was posted to a room.
    MessageReceived,
}

/// The agent's handlers.
#[derive(Debug, Clone, Copy, PartialEq, Eq, Structural)]
pub enum Handler {
    /// Accepts invitations addressed to the agent.
    Invitation,
    /// Answers eligible messages.
    Reply,
    /// Logs the messages of other users.
    Journal,
}

/// The handlers of a kind of event, in the order in which they are started.
pub open spec fn dispatch_table(kind: EventKind) -> Seq<Handler> {
    match kind {
        EventKind::MembershipChanged => seq![Handler::Invitation],
        EventKind::MessageReceived => seq![Handler::Reply, Handler::Journal],
    }
}

/// The kind of event a handler is for.
pub open spec fn kind_of(handler: Handler) -> EventKind {
    match handler {
        Handler::Invitation => EventKind::MembershipChanged,
        Handler::Reply => EventKind::MessageReceived,
        Handler::Journal => EventKind::MessageReceived,
    }
}

/// Looks up the handlers that an event of the given kind goes to.
pub fn handlers_for(kind: EventKind) -> (handlers: Vec<Handler>)
    ensures
        handlers@ == dispatch_table(kind),
{
    let mut handlers: Vec<Handler> = Vec::new();
    match kind {
        EventKind::MembershipChanged => {
            handlers.push(Handler::Invitation);
        },
        EventKind::MessageReceived => {
            handlers.push(Handler::Reply);
            handlers.push(Handler::Journal);
        },
    }
    handlers
}

/// Every handler is started for the events of its kind, once for each event,
/// and for no other event.
pub proof fn lemma_dispatch_is_complete(kind: EventKind, handler: Handler)
    ensures
        dispatch_table(kind).contains(handler) <==> kind_of(handler) == kind,
        dispatch_table(kind).no_duplicates(),
{
    let table = dispatch_table(kind);
    match kind {
        EventKind::MembershipChanged => {
            assert(table[0] == Handler::Invitation);
        },
        EventKind::MessageReceived => {
            assert(table[0] == Handler::Reply);
            assert(table[1] == Handler::Journal);
        },
    }
}

} // verus!
