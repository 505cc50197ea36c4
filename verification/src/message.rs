//! Answering one message.
//!
//! [`on_room_message`] filters a message and, if it is eligible, builds the
//! completion request. The caller then calls the completion service and reports
//! what came back with [`MessageTask::step`], sends the reply the task asks
//! for, and reports how the delivery went. Nothing is retried: a message ends
//! in `Done` or in `Failed`.

use crate::completion::{
    CompletionError,
    CompletionReply,
    CompletionRequest,
    CompletionResponse,
};
use crate::config::AgentConfig;
use crate::filter::{classify, verdict, Eligibility, IncomingMessage, MessageContent};
use crate::prompt::{prompt_text, CompletionPrompt};
use crate::room::Membership;
use vstd::prelude::*;

verus! {

/// Why a message got no reply.
#[derive(Debug, Clone, Copy, PartialEq, Eq, Structural)]
pub enum MessageFailure {
    /// The call of the completion service failed.
    Service,
    /// The service answered, but the response holds no usable text.
    Malformed(CompletionError),
    /// The reply could not be delivered to the room.
    Delivery,
}

/// Where the handling of a message stands.
#[derive(Debug, Clone, Copy, PartialEq, Eq, Structural)]
pub enum MessageStage {
    /// The completion request is due, or in flight.
    Completing,
    /// The reply is being delivered.
    Replying,
    /// Nothing is left to do. Terminal.
    Done,
    /// The message was given up. Terminal.
    Failed(MessageFailure),
}

/// What the caller observed.
#[derive(Debug, Clone, PartialEq, Eq)]
pub enum MessageEvent {
    /// The completion service returned this response.
    Completed(CompletionResponse),
    /// The call of the completion service failed.
    CompletionFailed,
    /// The reply was delivered.
    Delivered,
    /// The delivery of the reply failed.
    DeliveryFailed,
}

/// What the caller has to do next.
#[derive(Debug, Clone, PartialEq, Eq)]
pub enum MessageAction {
    /// Send this request to the completion service and report the result.
    Complete(CompletionRequest),
    /// Send this reply as plain text to the room and report the result.
    Send { room_id: String, reply: CompletionReply },
    /// Nothing.
    Idle,
}

/// The handling of one message.
#[derive(Debug, Clone, PartialEq, Eq)]
pub struct MessageTask {
    /// The room the message came from, and the reply goes to.
    pub room_id: String,
    /// The filter's verdict on the message.
    pub eligibility: Eligibility,
    pub stage: MessageStage,
}

/// Whether `task` and `action` are what the receipt of `message` leads to:
/// a rejected message is done at once and asks for nothing; an eligible one
/// asks for one completion of the prompt made of the reference document and
/// the message's body.
pub open spec fn is_receipt_of(
    task: MessageTask,
    action: MessageAction,
    config: AgentConfig,
    message: IncomingMessage,
    membership: Membership,
) -> bool {
    &&& task.room_id == message.room_id
    &&& task.eligibility == verdict(message, membership, config.own_identity@)
    &&& match task.eligibility {
        Eligibility::Rejected(_) => task.stage == MessageStage::Done && action
            == MessageAction::Idle,
        Eligibility::Eligible => {
            &&& task.stage == MessageStage::Completing
            &&& message.spec_body() matches Some(body)
            &&& action matches MessageAction::Complete(request)
            &&& request.is_for(config.model@, prompt_text(config.reference_document@, body))
        },
    }
}

impl MessageTask {
    /// Whether no event can change the task any more.
    pub open spec fn is_terminal(self) -> bool {
        self.stage is Done || self.stage is Failed
    }

    /// The transition function: the next state and the action to carry out.
    pub open spec fn spec_step(self, event: MessageEvent) -> (Self, MessageAction) {
        match (self.stage, event) {
            (MessageStage::Completing, MessageEvent::Completed(response)) => match response.reply() {
                Ok(reply) => (
                    MessageTask { stage: MessageStage::Replying, ..self },
                    MessageAction::Send { room_id: self.room_id, reply },
                ),
                Err(error) => (
                    MessageTask {
                        stage: MessageStage::Failed(MessageFailure::Malformed(error)),
                        ..self
                    },
                    MessageAction::Idle,
                ),
            },
            (MessageStage::Completing, MessageEvent::CompletionFailed) => (
                MessageTask { stage: MessageStage::Failed(MessageFailure::Service), ..self },
                MessageAction::Idle,
            ),
            (MessageStage::Replying, MessageEvent::Delivered) => (
                MessageTask { stage: MessageStage::Done, ..self },
                MessageAction::Idle,
            ),
            (MessageStage::Replying, MessageEvent::DeliveryFailed) => (
                MessageTask { stage: MessageStage::Failed(MessageFailure::Delivery), ..self },
                MessageAction::Idle,
            ),
            _ => (self, MessageAction::Idle),
        }
    }

    /// How many replies the caller is asked to send while `events` are
    /// reported in turn.
    pub open spec fn sends(self, events: Seq<MessageEvent>) -> nat
        decreases events.len(),
    {
        if events.len() == 0 {
            0
        } else {
            let (next, action) = self.spec_step(events[0]);
            let rest = next.sends(events.drop_first());
            if action is Send {
                rest + 1
            } else {
                rest
            }
        }
    }

    /// Whether the handling of the message is over.
    pub fn is_finished(&self) -> (finished: bool)
        ensures
            finished == self.is_terminal(),
    {
        match self.stage {
            MessageStage::Done => true,
            MessageStage::Failed(_) => true,
            _ => false,
        }
    }

    /// Takes one event and returns the next state and the action to carry out.
    pub fn step(self, event: MessageEvent) -> (next: (Self, MessageAction))
        ensures
            next == self.spec_step(event),
    {
        let MessageTask { room_id, eligibility, stage } = self;
        match stage {
            MessageStage::Completing => match event {
                MessageEvent::Completed(response) => match response.extract_reply() {
                    Ok(reply) => {
                        let target = room_id.clone();
                        (
                            MessageTask { room_id, eligibility, stage: MessageStage::Replying },
                            MessageAction::Send { room_id: target, reply },
                        )
                    },
                    Err(error) => (
                        MessageTask {
                            room_id,
                            eligibility,
                            stage: MessageStage::Failed(MessageFailure::Malformed(error)),
                        },
                        MessageAction::Idle,
                    ),
                },
                MessageEvent::CompletionFailed => (
                    MessageTask {
                        room_id,
                        eligibility,
                        stage: MessageStage::Failed(MessageFailure::Service),
                    },
                    MessageAction::Idle,
                ),
                _ => (MessageTask { room_id, eligibility, stage }, MessageAction::Idle),
            },
            MessageStage::Replying => match event {
                MessageEvent::Delivered => (
                    MessageTask { room_id, eligibility, stage: MessageStage::Done },
                    MessageAction::Idle,
                ),
                MessageEvent::DeliveryFailed => (
                    MessageTask {
                        room_id,
                        eligibility,
                        stage: MessageStage::Failed(MessageFailure::Delivery),
                    },
                    MessageAction::Idle,
                ),
                _ => (MessageTask { room_id, eligibility, stage }, MessageAction::Idle),
            },
            _ => (MessageTask { room_id, eligibility, stage }, MessageAction::Idle),
        }
    }
}

/// Takes a message in: filters it and, if it is eligible, builds the prompt
/// and the completion request.
///
/// A rejected message is dropped in silence: the task is done and no action
/// is asked for.
pub fn on_room_message(config: &AgentConfig, message: IncomingMessage, membership: Membership) -> (out:
    (MessageTask, MessageAction))
    ensures
        is_receipt_of(out.0, out.1, *config, message, membership),
{
    let eligibility = classify(&message, membership, &config.own_identity);
    let IncomingMessage { sender: _, room_id, content } = message;
    match eligibility {
        Eligibility::Rejected(_) => (
            MessageTask { room_id, eligibility, stage: MessageStage::Done },
            MessageAction::Idle,
        ),
        Eligibility::Eligible => match content {
            MessageContent::Text(body) => {
                let prompt = CompletionPrompt::build(
                    config.reference_document.as_str(),
                    body.as_str(),
                );
                let request = CompletionRequest::build(config.model.as_str(), prompt);
                (
                    MessageTask { room_id, eligibility, stage: MessageStage::Completing },
                    MessageAction::Complete(request),
                )
            },
            MessageContent::Other => (
                MessageTask { room_id, eligibility, stage: MessageStage::Done },
                MessageAction::Idle,
            ),
        },
    }
}

/// A message that is not a text message, or that the agent wrote itself, or
/// that arrives in a room the agent has not joined, is done on receipt and
/// asks for nothing; and whatever is reported afterwards, the task asks for
/// nothing either.
pub proof fn lemma_rejected_asks_nothing(
    task: MessageTask,
    action: MessageAction,
    config: AgentConfig,
    message: IncomingMessage,
    membership: Membership,
    event: MessageEvent,
)
    requires
        is_receipt_of(task, action, config, message, membership),
        message.spec_body() is None || message.sender@ == config.own_identity@ || !(membership
            is Joined),
    ensures
        task.eligibility is Rejected,
        task.stage == MessageStage::Done,
        action == MessageAction::Idle,
        task.spec_step(event) == (task, MessageAction::Idle),
{
}

/// No event makes a task ask for a completion: the service is called only for
/// the request that the receipt of an eligible message returns.
pub proof fn lemma_step_never_completes(task: MessageTask, event: MessageEvent)
    ensures
        !(task.spec_step(event).1 is Complete),
{
}

/// A response without choices fails the message with `NoChoices`, and no
/// reply is sent.
pub proof fn lemma_no_choices_fails(task: MessageTask, response: CompletionResponse)
    requires
        task.stage == MessageStage::Completing,
        response.choices@.len() == 0,
    ensures
        task.spec_step(MessageEvent::Completed(response)) == (
            MessageTask {
                stage: MessageStage::Failed(MessageFailure::Malformed(CompletionError::NoChoices)),
                ..task
            },
            MessageAction::Idle,
        ),
{
}

/// A response whose first choice holds a text that is not empty makes the task
/// ask for one delivery of exactly that text to the room the message came from.
pub proof fn lemma_reply_goes_to_origin(
    task: MessageTask,
    response: CompletionResponse,
    text: String,
)
    requires
        task.stage == MessageStage::Completing,
        response.choices@.len() > 0,
        response.choices@[0].content == Some(text),
        text@.len() > 0,
    ensures
        task.spec_step(MessageEvent::Completed(response)) == (
            MessageTask { stage: MessageStage::Replying, ..task },
            MessageAction::Send { room_id: task.room_id, reply: CompletionReply { text } },
        ),
{
}

/// Once a reply was asked for, or the message is over, no further reply is
/// asked for.
pub proof fn lemma_no_send_after_completing(task: MessageTask, events: Seq<MessageEvent>)
    requires
        task.stage != MessageStage::Completing,
    ensures
        task.sends(events) == 0,
    decreases events.len(),
{
    if events.len() > 0 {
        lemma_no_send_after_completing(task.spec_step(events[0]).0, events.drop_first());
    }
}

/// Whatever is reported, and in whatever order, a message gets at most one
/// reply; a failure is never followed by a second try.
pub proof fn lemma_at_most_one_send(task: MessageTask, events: Seq<MessageEvent>)
    ensures
        task.sends(events) <= 1,
    decreases events.len(),
{
    if events.len() > 0 {
        let (next, action) = task.spec_step(events[0]);
        if next.stage == MessageStage::Completing {
            lemma_at_most_one_send(next, events.drop_first());
        } else {
            lemma_no_send_after_completing(next, events.drop_first());
        }
    }
}

/// A usable response, reported first, leads to exactly one reply, whatever is
/// reported after it.
pub proof fn lemma_exactly_one_send(
    task: MessageTask,
    response: CompletionResponse,
    later: Seq<MessageEvent>,
)
    requires
        task.stage == MessageStage::Completing,
        response.reply() is Ok,
    ensures
        task.sends(seq![MessageEvent::Completed(response)] + later) == 1,
{
    let events = seq![MessageEvent::Completed(response)] + later;
    assert(events[0] == MessageEvent::Completed(response));
    assert(events.drop_first() == later);
    lemma_no_send_after_completing(task.spec_step(events[0]).0, later);
}

/// A task that is over stays as it is.
pub proof fn lemma_finished_message_is_final(task: MessageTask, event: MessageEvent)
    requires
        task.is_terminal(),
    ensures
        task.spec_step(event) == (task, MessageAction::Idle),
{
}

} // verus!
