//! The chat data that travels between the rewriter and the text completion service.

use vstd::prelude::*;

verus! {

/// One turn of a chat: who speaks, and what is said.
#[derive(Debug, PartialEq, Eq)]
pub struct ChatMessage {
    pub role: String,
    pub content: String,
}

/// The mathematical value of a [`ChatMessage`].
pub struct ChatMessageView {
    pub role: Seq<char>,
    pub content: Seq<char>,
}

impl View for ChatMessage {
    type V = ChatMessageView;

    open spec fn view(&self) -> ChatMessageView {
        ChatMessageView { role: self.role@, content: self.content@ }
    }
}

impl DeepView for ChatMessage {
    type V = ChatMessageView;

    open spec fn deep_view(&self) -> ChatMessageView {
        self@
    }
}

impl Clone for ChatMessage {
    fn clone(&self) -> (copy: Self)
        ensures
            copy == *self,
    {
        ChatMessage { role: self.role.clone(), content: self.content.clone() }
    }
}

impl ChatMessage {
    /// A turn spoken by the system: the standing instruction of a run.
    pub fn system(content: String) -> (message: Self)
        ensures
            message.role@ == "system"@,
            message.content == content,
    {
        ChatMessage { role: "system".to_owned(), content }
    }

    /// A turn spoken by the user: the text that is to be rewritten.
    pub fn user(content: String) -> (message: Self)
        ensures
            message.role@ == "user"@,
            message.content == content,
    {
        ChatMessage { role: "user".to_owned(), content }
    }
}

/// The sampling parameters of a completion request.
///
/// A parameter that is `None` is left out of the request. The four real-valued
/// parameters are carried as the bit pattern of the single-precision number that
/// the service is sent; nothing here looks inside one.
#[derive(Clone, Copy, Debug, PartialEq, Eq)]
pub struct Sampling {
    pub temperature: Option<u32>,
    pub top_p: Option<u32>,
    pub n: Option<i32>,
    pub stream: Option<bool>,
    pub max_tokens: Option<i32>,
    pub presence_penalty: Option<u32>,
    pub frequency_penalty: Option<u32>,
}

impl Sampling {
    /// The sampling in which every parameter is left to the service.
    pub open spec fn unset() -> Sampling {
        Sampling {
            temperature: None,
            top_p: None,
            n: None,
            stream: None,
            max_tokens: None,
            presence_penalty: None,
            frequency_penalty: None,
        }
    }

    /// Leaves every parameter to the service.
    pub fn none() -> (sampling: Self)
        ensures
            sampling == Sampling::unset(),
    {
        Sampling {
            temperature: None,
            top_p: None,
            n: None,
            stream: None,
            max_tokens: None,
            presence_penalty: None,
            frequency_penalty: None,
        }
    }
}

/// A completion request: a model, the turns so far, and the sampling parameters.
///
/// The prompt template of a run is a request that holds the system turn alone.
#[derive(Debug, PartialEq, Eq)]
pub struct ChatRequest {
    pub model: String,
    pub messages: Vec<ChatMessage>,
    pub sampling: Sampling,
}

/// The mathematical value of a [`ChatRequest`].
pub struct ChatRequestView {
    pub model: Seq<char>,
    pub messages: Seq<ChatMessageView>,
    pub sampling: Sampling,
}

impl View for ChatRequest {
    type V = ChatRequestView;

    open spec fn view(&self) -> ChatRequestView {
        ChatRequestView {
            model: self.model@,
            messages: self.messages.deep_view(),
            sampling: self.sampling,
        }
    }
}

/// The token counts that the service reports with a completion.
#[derive(Clone, Copy, Debug, PartialEq, Eq)]
pub struct ChatUsage {
    pub prompt_tokens: u32,
    pub completion_tokens: u32,
    pub total_tokens: u32,
}

/// One of the completions that the service offers in a response.
#[derive(Debug, PartialEq, Eq)]
pub struct ChatChoice {
    pub index: u32,
    pub message: ChatMessage,
    pub finish_reason: Option<String>,
}

/// The mathematical value of a [`ChatChoice`].
pub struct ChatChoiceView {
    pub index: u32,
    pub message: ChatMessageView,
    pub finish_reason: Option<Seq<char>>,
}

impl View for ChatChoice {
    type V = ChatChoiceView;

    open spec fn view(&self) -> ChatChoiceView {
        ChatChoiceView {
            index: self.index,
            message: self.message@,
            finish_reason: match self.finish_reason {
                Some(reason) => Some(reason@),
                None => None,
            },
        }
    }
}

impl DeepView for ChatChoice {
    type V = ChatChoiceView;

    open spec fn deep_view(&self) -> ChatChoiceView {
        self@
    }
}

/// The envelope of a successful response.
#[derive(Debug, PartialEq, Eq)]
pub struct ChatResponse {
    pub id: String,
    pub object: String,
    pub created: u64,
    pub choices: Vec<ChatChoice>,
    pub usage: ChatUsage,
}

/// The mathematical value of a [`ChatResponse`].
pub struct ChatResponseView {
    pub id: Seq<char>,
    pub object: Seq<char>,
    pub created: u64,
    pub choices: Seq<ChatChoiceView>,
    pub usage: ChatUsage,
}

impl View for ChatResponse {
    type V = ChatResponseView;

    open spec fn view(&self) -> ChatResponseView {
        ChatResponseView {
            id: self.id@,
            object: self.object@,
            created: self.created,
            choices: self.choices.deep_view(),
            usage: self.usage,
        }
    }
}

} // verus!
