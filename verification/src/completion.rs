//! The request sent to the completion service and the reading of its answer.

use crate::prompt::CompletionPrompt;
use vstd::prelude::*;
use vstd::string::StringExecFns;

verus! {

/// The most tokens a completion may have.
pub const MAX_TOKENS: u32 = 4096;

/// Who speaks in a message of a request.
#[derive(Debug, Clone, Copy, PartialEq, Eq, Structural)]
pub enum Role {
    User,
    System,
    Assistant,
}

/// One message of a request.
#[derive(Debug, Clone, PartialEq, Eq)]
pub struct ChatMessage {
    pub role: Role,
    pub content: String,
}

/// A request to the completion service.
#[derive(Debug, Clone, PartialEq, Eq)]
pub struct CompletionRequest {
    /// The identifier of the model that is asked.
    pub model: String,
    /// The conversation, in order.
    pub messages: Vec<ChatMessage>,
    /// The ceiling on the tokens of the answer.
    pub max_tokens: u32,
}

/// One of the answers the service offers.
#[derive(Debug, Clone, PartialEq, Eq)]
pub struct Choice {
    /// The text of the answer, if the service gave one.
    pub content: Option<String>,
}

/// What the completion service returned.
#[derive(Debug, Clone, PartialEq, Eq)]
pub struct CompletionResponse {
    /// The answers, in the order the service gave them.
    pub choices: Vec<Choice>,
}

/// The text that is sent back to the room. It is never empty.
#[derive(Debug, Clone, PartialEq, Eq)]
pub struct CompletionReply {
    pub text: String,
}

/// Why a response yields no reply.
#[derive(Debug, Clone, Copy, PartialEq, Eq, Structural)]
pub enum CompletionError {
    /// The response holds no choice at all.
    NoChoices,
    /// The first choice has no text, or its text is empty.
    EmptyCompletion,
}

impl View for CompletionReply {
    type V = Seq<char>;

    open spec fn view(&self) -> Seq<char> {
        self.text@
    }
}

impl CompletionReply {
    /// A reply is never empty.
    pub open spec fn wf(self) -> bool {
        self.text@.len() > 0
    }
}

impl CompletionRequest {
    /// Whether this is the request for a prompt: the given model, a single
    /// message from the user that holds the prompt, and the fixed ceiling.
    pub open spec fn is_for(self, model: Seq<char>, prompt: Seq<char>) -> bool {
        &&& self.model@ == model
        &&& self.messages@.len() == 1
        &&& self.messages@[0].role == Role::User
        &&& self.messages@[0].content@ == prompt
        &&& self.max_tokens == MAX_TOKENS
    }

    /// Builds the request for a prompt.
    pub fn build(model: &str, prompt: CompletionPrompt) -> (request: CompletionRequest)
        ensures
            request.is_for(model@, prompt@),
    {
        let mut messages: Vec<ChatMessage> = Vec::new();
        messages.push(ChatMessage { role: Role::User, content: prompt.into_text() });
        CompletionRequest { model: String::from_str(model), messages, max_tokens: MAX_TOKENS }
    }
}

impl CompletionResponse {
    /// The reply that a response yields: the text of its first choice, or the
    /// reason why there is none.
    pub open spec fn reply(self) -> Result<CompletionReply, CompletionError> {
        if self.choices@.len() == 0 {
            Err(CompletionError::NoChoices)
        } else {
            match self.choices@[0].content {
                None => Err(CompletionError::EmptyCompletion),
                Some(text) => if text@.len() == 0 {
                    Err(CompletionError::EmptyCompletion)
                } else {
                    Ok(CompletionReply { text })
                },
            }
        }
    }

    /// Reads the reply off a response. Later choices are not looked at.
    pub fn extract_reply(&self) -> (result: Result<CompletionReply, CompletionError>)
        ensures
            result == self.reply(),
            result matches Ok(reply) ==> reply.wf(),
    {
        if self.choices.len() == 0 {
            return Err(CompletionError::NoChoices);
        }
        match &self.choices[0].content {
            None => Err(CompletionError::EmptyCompletion),
            Some(text) => {
                if text.as_str().is_empty() {
                    Err(CompletionError::EmptyCompletion)
                } else {
                    Ok(CompletionReply { text: text.clone() })
                }
            },
        }
    }
}

/// When a response yields a reply, and which: exactly if it has a first choice
/// with a text that is not empty, and then that text. A response without
/// choices gives `NoChoices`; one whose first choice has no text or an empty
/// one gives `EmptyCompletion`.
pub proof fn lemma_reply_cases(response: CompletionResponse)
    ensures
        response.reply() is Ok <==> (response.choices@.len() > 0 && (
        response.choices@[0].content matches Some(text) && text@.len() > 0)),
        response.reply() matches Ok(reply) ==> response.choices@[0].content == Some(reply.text)
            && reply.wf(),
        response.reply() == Err::<CompletionReply, CompletionError>(CompletionError::NoChoices)
            <==> response.choices@.len() == 0,
        response.reply() == Err::<CompletionReply, CompletionError>(
            CompletionError::EmptyCompletion,
        ) <==> (response.choices@.len() > 0 && !(response.choices@[0].content matches Some(text)
            && text@.len() > 0)),
{
}

} // verus!
