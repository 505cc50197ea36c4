//! Decision logic of a chat-room agent that joins rooms on invitation and
//! answers text messages with the help of a completion service.
//!
//! The crate performs no I/O. Every handler is a transition function: it takes
//! the current state and the event that just happened and returns the next
//! state together with the one action the caller has to carry out (join a room,
//! sleep, call the completion service, send a reply). The caller runs the
//! action, turns its result into the next event, and calls again.

pub mod backoff;
pub mod completion;
pub mod config;
pub mod filter;
pub mod invitation;
pub mod message;
pub mod prompt;
pub mod room;
pub mod runtime;
