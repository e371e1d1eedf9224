use page_rewriter::chat::{ChatMessage, ChatRequest, Sampling};
use page_rewriter::request::{build_request, new_template};

fn message(role: &str, content: &str) -> ChatMessage {
    ChatMessage { role: role.to_string(), content: content.to_string() }
}

#[test]
fn a_template_holds_the_system_turn_alone() {
    let template = new_template("rewrite it".to_string(), None);
    assert_eq!(template.model, "gpt-3.5-turbo");
    assert_eq!(template.messages, vec![message("system", "rewrite it")]);
    assert_eq!(template.sampling, Sampling::none());
    assert_eq!(template.sampling.temperature, None);
    assert_eq!(template.sampling.n, None);
    assert_eq!(template.sampling.stream, None);
}

#[test]
fn a_template_carries_its_temperature() {
    let bits = 0.7f32.to_bits();
    let template = new_template("p".to_string(), Some(bits));
    assert_eq!(template.sampling.temperature, Some(bits));
    assert_eq!(f32::from_bits(template.sampling.temperature.unwrap()), 0.7f32);
    assert_eq!(template.sampling.top_p, None);
    assert_eq!(template.sampling.max_tokens, None);
    assert_eq!(template.sampling.presence_penalty, None);
    assert_eq!(template.sampling.frequency_penalty, None);
}

#[test]
fn a_request_is_the_template_with_one_user_turn() {
    let template = new_template("rewrite it".to_string(), Some(1));
    let request = build_request(&template, "hello world");
    assert_eq!(request.model, template.model);
    assert_eq!(request.sampling, template.sampling);
    assert_eq!(
        request.messages,
        vec![message("system", "rewrite it"), message("user", "hello world")]
    );
}

#[test]
fn building_requests_never_changes_the_template() {
    let template = new_template("rewrite it".to_string(), Some(7));
    let before = ChatRequest {
        model: template.model.clone(),
        messages: template.messages.clone(),
        sampling: template.sampling,
    };
    let first = build_request(&template, "first text");
    let second = build_request(&template, "second text");
    assert_eq!(template, before);
    assert_eq!(template.messages.len(), 1);
    assert_eq!(first.messages.len(), 2);
    assert_eq!(second.messages.len(), 2);
    assert_eq!(first.messages[0], template.messages[0]);
    assert_eq!(second.messages[0], template.messages[0]);
    assert_eq!(first.messages[1], message("user", "first text"));
    assert_eq!(second.messages[1], message("user", "second text"));
}

#[test]
fn a_request_keeps_every_turn_of_a_longer_template() {
    let template = ChatRequest {
        model: "other-model".to_string(),
        messages: vec![message("system", "a"), message("assistant", "b"), message("user", "c")],
        sampling: Sampling {
            temperature: Some(1),
            top_p: Some(2),
            n: Some(1),
            stream: Some(false),
            max_tokens: Some(64),
            presence_penalty: Some(3),
            frequency_penalty: Some(4),
        },
    };
    let request = build_request(&template, "");
    assert_eq!(request.model, "other-model");
    assert_eq!(request.sampling, template.sampling);
    assert_eq!(request.messages.len(), 4);
    assert_eq!(&request.messages[..3], &template.messages[..]);
    assert_eq!(request.messages[3], message("user", ""));
}

#[test]
fn the_turn_constructors_name_their_roles() {
    assert_eq!(ChatMessage::system("s".to_string()), message("system", "s"));
    assert_eq!(ChatMessage::user("u".to_string()), message("user", "u"));
    let copy = message("user", "u").clone();
    assert_eq!(copy, message("user", "u"));
}
