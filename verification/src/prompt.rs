//! Building the text that is sent to the completion service.

use vstd::prelude::*;
use vstd::string::StringExecFns;

verus! {

/// The text of one completion request: the reference document, then the
/// user's message, each behind its label. It is built once and never changed.
#[derive(Debug, Clone, PartialEq, Eq)]
pub struct CompletionPrompt {
    text: String,
}

/// The label in front of the reference document.
pub open spec fn document_label() -> Seq<char> {
    "Reference information: "@
}

/// The separator and label in front of the user's message.
pub open spec fn message_label() -> Seq<char> {
    "\nUser message: "@
}

/// The prompt for a document and a message.
pub open spec fn prompt_text(document: Seq<char>, message: Seq<char>) -> Seq<char> {
    document_label() + document + message_label() + message
}

impl View for CompletionPrompt {
    type V = Seq<char>;

    closed spec fn view(&self) -> Seq<char> {
        self.text@
    }
}

impl CompletionPrompt {
    /// Joins the reference document and the user's message into one prompt.
    pub fn build(document: &str, message: &str) -> (prompt: CompletionPrompt)
        ensures
            prompt@ == prompt_text(document@, message@),
    {
        let mut text = String::from_str("Reference information: ");
        text.append(document);
        text.append("\nUser message: ");
        text.append(message);
        CompletionPrompt { text }
    }

    /// The prompt as text.
    pub fn as_str(&self) -> (text: &str)
        ensures
            text@ == self@,
    {
        self.text.as_str()
    }

    /// Gives the text away; the prompt is used up.
    pub fn into_text(self) -> (text: String)
        ensures
            text@ == self@,
    {
        self.text
    }
}

/// The parts of a prompt can be read off it: it starts with the document's
/// label, the document follows, then the message's label, and the message
/// runs to the end.
pub proof fn lemma_prompt_parts(document: Seq<char>, message: Seq<char>)
    ensures
        ({
            let prompt = prompt_text(document, message);
            let a = document_label().len() as int;
            let b = a + document.len();
            let c = b + message_label().len();
            &&& prompt.len() == c + message.len()
            &&& prompt.subrange(0, a) == document_label()
            &&& prompt.subrange(a, b) == document
            &&& prompt.subrange(b, c) == message_label()
            &&& prompt.subrange(c, prompt.len() as int) == message
        }),
{
}

} // verus!
