//! Building completion requests from the prompt template of a run.

use crate::chat::{ChatMessage, ChatMessageView, ChatRequest, ChatRequestView, Sampling};
use vstd::prelude::*;

verus! {

/// The model that is asked when the caller names no other.
pub open spec fn default_model() -> Seq<char> {
    "gpt-3.5-turbo"@
}

/// The turn that carries `text` to the service.
pub open spec fn user_turn(text: Seq<char>) -> ChatMessageView {
    ChatMessageView { role: "user"@, content: text }
}

/// The turn that carries the standing instruction `prompt`.
pub open spec fn system_turn(prompt: Seq<char>) -> ChatMessageView {
    ChatMessageView { role: "system"@, content: prompt }
}

/// The template that `new_template` builds: the default model, the system turn
/// alone, and no sampling parameter but the temperature.
pub open spec fn template_of(prompt: Seq<char>, temperature: Option<u32>) -> ChatRequestView {
    ChatRequestView {
        model: default_model(),
        messages: seq![system_turn(prompt)],
        sampling: Sampling { temperature, ..Sampling::unset() },
    }
}

/// The request that `build_request` derives from `template` for `text`: the
/// template with one user turn behind its turns, and nothing else changed.
pub open spec fn request_for(template: ChatRequestView, text: Seq<char>) -> ChatRequestView {
    ChatRequestView { messages: template.messages.push(user_turn(text)), ..template }
}

/// Builds the prompt template of a run from its system prompt and temperature.
pub fn new_template(system_prompt: String, temperature: Option<u32>) -> (template: ChatRequest)
    ensures
        template@ == template_of(system_prompt@, temperature),
{
    let mut messages: Vec<ChatMessage> = Vec::new();
    messages.push(ChatMessage::system(system_prompt));
    let mut sampling = Sampling::none();
    sampling.temperature = temperature;
    let template = ChatRequest { model: "gpt-3.5-turbo".to_owned(), messages, sampling };
    assert(template@.messages =~= seq![system_turn(system_prompt@)]);
    template
}

/// Copies the turns of a request.
fn copy_messages(messages: &Vec<ChatMessage>) -> (copy: Vec<ChatMessage>)
    ensures
        copy@ == messages@,
{
    let mut copy: Vec<ChatMessage> = Vec::new();
    let mut i: usize = 0;
    while i < messages.len()
        invariant
            i <= messages.len(),
            copy@ == messages@.take(i as int),
        decreases messages.len() - i,
    {
        copy.push(messages[i].clone());
        assert(messages@.take(i + 1) =~= messages@.take(i as int).push(messages@[i as int]));
        i += 1;
    }
    assert(messages@.take(messages.len() as int) =~= messages@);
    copy
}

/// Derives the request of one task: the template's model and sampling, and its
/// turns followed by one user turn that holds `text`. The template is only read.
pub fn build_request(template: &ChatRequest, text: &str) -> (request: ChatRequest)
    ensures
        request@ == request_for(template@, text@),
{
    let mut messages = copy_messages(&template.messages);
    messages.push(ChatMessage::user(text.to_owned()));
    let request = ChatRequest {
        model: template.model.clone(),
        messages,
        sampling: template.sampling,
    };
    assert(request@.messages =~= template@.messages.push(user_turn(text@)));
    request
}

/// Building a request leaves the template as it was, and two requests built from
/// one template differ in their last turn alone: each holds the template's turns
/// and, behind them, the user turn of its own text.
pub proof fn lemma_requests_share_the_template(
    template: ChatRequestView,
    first: Seq<char>,
    second: Seq<char>,
)
    ensures
        request_for(template, first).messages.drop_last() == template.messages,
        request_for(template, second).messages.drop_last() == template.messages,
        request_for(template, first).messages.last() == user_turn(first),
        request_for(template, second).messages.last() == user_turn(second),
        request_for(template, first).messages.len() == template.messages.len() + 1,
        request_for(template, first).model == template.model,
        request_for(template, first).sampling == template.sampling,
        request_for(template, second).model == template.model,
        request_for(template, second).sampling == template.sampling,
{
    assert(request_for(template, first).messages.drop_last() =~= template.messages);
    assert(request_for(template, second).messages.drop_last() =~= template.messages);
}

} // verus!
