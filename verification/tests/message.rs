use roombot::completion::{
    ChatMessage, Choice, CompletionError, CompletionReply, CompletionRequest, CompletionResponse,
    Role,
};
use roombot::config::AgentConfig;
use roombot::filter::{Eligibility, IncomingMessage, MessageContent, Rejection};
use roombot::message::{
    on_room_message, MessageAction, MessageEvent, MessageFailure, MessageStage, MessageTask,
};
use roombot::room::Membership;

const BOT: &str = "@virto_bot:matrix.org";
const ROOM: &str = "!abc:example.org";

fn config() -> AgentConfig {
    AgentConfig {
        own_identity: BOT.to_string(),
        model: "gpt-4-0125-preview".to_string(),
        reference_document: "Virto is a protocol.".to_string(),
    }
}

fn text(sender: &str, body: &str) -> IncomingMessage {
    IncomingMessage {
        sender: sender.to_string(),
        room_id: ROOM.to_string(),
        content: MessageContent::Text(body.to_string()),
    }
}

fn response(contents: Vec<Option<&str>>) -> CompletionResponse {
    CompletionResponse {
        choices: contents
            .into_iter()
            .map(|content| Choice { content: content.map(|text| text.to_string()) })
            .collect(),
    }
}

fn completing() -> MessageTask {
    let (task, _) = on_room_message(&config(), text("@alice:example.org", "What is Virto?"), Membership::Joined);
    assert_eq!(task.stage, MessageStage::Completing);
    task
}

fn all_events() -> Vec<MessageEvent> {
    vec![
        MessageEvent::Completed(response(vec![Some("late")])),
        MessageEvent::Completed(response(vec![])),
        MessageEvent::CompletionFailed,
        MessageEvent::Delivered,
        MessageEvent::DeliveryFailed,
    ]
}

#[test]
fn eligible_message_asks_for_one_completion() {
    let (task, action) =
        on_room_message(&config(), text("@alice:example.org", "What is Virto?"), Membership::Joined);
    assert_eq!(
        task,
        MessageTask {
            room_id: ROOM.to_string(),
            eligibility: Eligibility::Eligible,
            stage: MessageStage::Completing,
        }
    );
    assert_eq!(
        action,
        MessageAction::Complete(CompletionRequest {
            model: "gpt-4-0125-preview".to_string(),
            messages: vec![ChatMessage {
                role: Role::User,
                content: "Reference information: Virto is a protocol.\nUser message: What is Virto?"
                    .to_string(),
            }],
            max_tokens: 4096,
        })
    );
    assert!(!task.is_finished());
}

#[test]
fn message_that_is_not_text_never_reaches_the_service() {
    let message = IncomingMessage {
        sender: "@alice:example.org".to_string(),
        room_id: ROOM.to_string(),
        content: MessageContent::Other,
    };
    let (task, action) = on_room_message(&config(), message, Membership::Joined);
    assert_eq!(action, MessageAction::Idle);
    assert_eq!(task.stage, MessageStage::Done);
    assert_eq!(task.eligibility, Eligibility::Rejected(Rejection::NotText));
    assert!(task.is_finished());
}

#[test]
fn own_message_never_reaches_the_service() {
    let (task, action) = on_room_message(&config(), text(BOT, "my own reply"), Membership::Joined);
    assert_eq!(action, MessageAction::Idle);
    assert_eq!(task.stage, MessageStage::Done);
    assert_eq!(task.eligibility, Eligibility::Rejected(Rejection::SelfAuthored));
}

#[test]
fn message_in_room_not_joined_never_reaches_the_service() {
    for membership in [Membership::Invited, Membership::Left] {
        let (task, action) = on_room_message(&config(), text("@alice:example.org", "hi"), membership);
        assert_eq!(action, MessageAction::Idle);
        assert_eq!(task.stage, MessageStage::Done);
        assert_eq!(task.eligibility, Eligibility::Rejected(Rejection::NotJoined));
        assert_eq!(task.room_id, ROOM);
    }
}

#[test]
fn rejected_message_stays_done_whatever_is_reported() {
    let (task, _) = on_room_message(&config(), text(BOT, "my own reply"), Membership::Joined);
    for event in all_events() {
        let (next, action) = task.clone().step(event);
        assert_eq!(action, MessageAction::Idle);
        assert_eq!(next, task);
    }
}

#[test]
fn response_without_choices_fails_and_sends_nothing() {
    let (task, action) = completing().step(MessageEvent::Completed(response(vec![])));
    assert_eq!(action, MessageAction::Idle);
    assert_eq!(task.stage, MessageStage::Failed(MessageFailure::Malformed(CompletionError::NoChoices)));
    assert!(task.is_finished());
    for event in all_events() {
        let (next, action) = task.clone().step(event);
        assert_eq!(action, MessageAction::Idle);
        assert_eq!(next, task);
    }
}

#[test]
fn response_without_text_fails_and_sends_nothing() {
    for answer in [response(vec![None]), response(vec![Some("")]), response(vec![None, Some("x")])] {
        let (task, action) = completing().step(MessageEvent::Completed(answer));
        assert_eq!(action, MessageAction::Idle);
        assert_eq!(
            task.stage,
            MessageStage::Failed(MessageFailure::Malformed(CompletionError::EmptyCompletion))
        );
    }
}

#[test]
fn single_choice_is_sent_once_to_the_originating_room() {
    let answer = response(vec![Some("Virto is a decentralized protocol.")]);
    let (task, action) = completing().step(MessageEvent::Completed(answer));
    assert_eq!(
        action,
        MessageAction::Send {
            room_id: ROOM.to_string(),
            reply: CompletionReply { text: "Virto is a decentralized protocol.".to_string() },
        }
    );
    assert_eq!(task.stage, MessageStage::Replying);
    assert_eq!(task.room_id, ROOM);
    for event in all_events() {
        let (_, action) = task.clone().step(event);
        assert_eq!(action, MessageAction::Idle);
    }
    let (task, action) = task.step(MessageEvent::Delivered);
    assert_eq!(action, MessageAction::Idle);
    assert_eq!(task.stage, MessageStage::Done);
    assert!(task.is_finished());
}

#[test]
fn failed_service_call_is_terminal() {
    let (task, action) = completing().step(MessageEvent::CompletionFailed);
    assert_eq!(action, MessageAction::Idle);
    assert_eq!(task.stage, MessageStage::Failed(MessageFailure::Service));
    assert!(task.is_finished());
}

#[test]
fn failed_delivery_is_not_retried() {
    let answer = response(vec![Some("Virto is a decentralized protocol.")]);
    let (task, _) = completing().step(MessageEvent::Completed(answer));
    let (task, action) = task.step(MessageEvent::DeliveryFailed);
    assert_eq!(action, MessageAction::Idle);
    assert_eq!(task.stage, MessageStage::Failed(MessageFailure::Delivery));
    for event in all_events() {
        let (next, action) = task.clone().step(event);
        assert_eq!(action, MessageAction::Idle);
        assert_eq!(next, task);
    }
}

#[test]
fn delivery_report_before_a_response_is_ignored() {
    let task = completing();
    for event in [MessageEvent::Delivered, MessageEvent::DeliveryFailed] {
        let (next, action) = task.clone().step(event);
        assert_eq!(action, MessageAction::Idle);
        assert_eq!(next, task);
    }
}

#[test]
fn any_run_sends_at_most_one_reply() {
    let events = all_events();
    for first in 0..events.len() {
        for second in 0..events.len() {
            for third in 0..events.len() {
                let mut task = completing();
                let mut sends = 0;
                for index in [first, second, third] {
                    let (next, action) = task.step(events[index].clone());
                    if let MessageAction::Send { .. } = action {
                        sends += 1;
                    }
                    if let MessageAction::Complete(_) = action {
                        panic!("a step asked for a completion");
                    }
                    task = next;
                }
                assert!(sends <= 1);
                // Reports of a delivery are ignored until a response came in.
                let decisive = [first, second, third].into_iter().find(|index| *index < 3);
                assert_eq!(sends == 1, decisive == Some(0));
            }
        }
    }
}

#[test]
fn message_from_receipt_to_delivery() {
    let (task, action) =
        on_room_message(&config(), text("@alice:example.org", "What is Virto?"), Membership::Joined);
    let request = match action {
        MessageAction::Complete(request) => request,
        other => panic!("expected a completion request, got {:?}", other),
    };
    assert_eq!(request.messages.len(), 1);
    assert_eq!(request.max_tokens, 4096);
    let answer = response(vec![Some("Virto is a decentralized protocol.")]);
    let (task, action) = task.step(MessageEvent::Completed(answer));
    match action {
        MessageAction::Send { room_id, reply } => {
            assert_eq!(room_id, ROOM);
            assert_eq!(reply.text, "Virto is a decentralized protocol.");
        }
        other => panic!("expected a reply, got {:?}", other),
    }
    let (task, _) = task.step(MessageEvent::Delivered);
    assert_eq!(task.stage, MessageStage::Done);
}
