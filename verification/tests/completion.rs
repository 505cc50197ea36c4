use roombot::completion::{
    ChatMessage, Choice, CompletionError, CompletionReply, CompletionRequest, CompletionResponse,
    Role, MAX_TOKENS,
};
use roombot::prompt::CompletionPrompt;

fn response(contents: Vec<Option<&str>>) -> CompletionResponse {
    CompletionResponse {
        choices: contents
            .into_iter()
            .map(|content| Choice { content: content.map(|text| text.to_string()) })
            .collect(),
    }
}

#[test]
fn token_ceiling_is_4096() {
    assert_eq!(MAX_TOKENS, 4096);
}

#[test]
fn request_holds_one_user_message_with_the_prompt() {
    let prompt = CompletionPrompt::build("Virto is a protocol.", "What is Virto?");
    let request = CompletionRequest::build("gpt-4-0125-preview", prompt);
    assert_eq!(
        request,
        CompletionRequest {
            model: "gpt-4-0125-preview".to_string(),
            messages: vec![ChatMessage {
                role: Role::User,
                content: "Reference information: Virto is a protocol.\nUser message: What is Virto?"
                    .to_string(),
            }],
            max_tokens: 4096,
        }
    );
}

#[test]
fn response_without_choices_gives_no_choices() {
    assert_eq!(response(vec![]).extract_reply(), Err(CompletionError::NoChoices));
}

#[test]
fn first_choice_without_text_gives_empty_completion() {
    assert_eq!(response(vec![None]).extract_reply(), Err(CompletionError::EmptyCompletion));
}

#[test]
fn first_choice_with_empty_text_gives_empty_completion() {
    assert_eq!(response(vec![Some("")]).extract_reply(), Err(CompletionError::EmptyCompletion));
}

#[test]
fn only_the_first_choice_counts() {
    assert_eq!(
        response(vec![None, Some("second")]).extract_reply(),
        Err(CompletionError::EmptyCompletion)
    );
    assert_eq!(
        response(vec![Some(""), Some("second")]).extract_reply(),
        Err(CompletionError::EmptyCompletion)
    );
    assert_eq!(
        response(vec![Some("first"), Some("second")]).extract_reply(),
        Ok(CompletionReply { text: "first".to_string() })
    );
    assert_eq!(
        response(vec![Some("first"), None]).extract_reply(),
        Ok(CompletionReply { text: "first".to_string() })
    );
}

#[test]
fn reply_is_the_text_of_the_first_choice() {
    assert_eq!(
        response(vec![Some("Virto is a decentralized protocol.")]).extract_reply(),
        Ok(CompletionReply { text: "Virto is a decentralized protocol.".to_string() })
    );
}

#[test]
fn reply_keeps_white_space() {
    assert_eq!(
        response(vec![Some(" ")]).extract_reply(),
        Ok(CompletionReply { text: " ".to_string() })
    );
    assert_eq!(
        response(vec![Some("a\n b ")]).extract_reply(),
        Ok(CompletionReply { text: "a\n b ".to_string() })
    );
}

#[test]
fn extract_reply_leaves_response_untouched() {
    let answer = response(vec![Some("first"), Some("second")]);
    let copy = answer.clone();
    let _ = answer.extract_reply();
    assert_eq!(answer, copy);
}
