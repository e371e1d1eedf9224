//! What the completion client concludes from the answer of the service.
//!
//! Sending the request and decoding the body are the caller's part; the
//! decisions between them are made here.

use crate::chat::{ChatResponse, ChatResponseView, ChatUsage};
use vstd::prelude::*;

verus! {

/// Why a completion call gave no text.
#[derive(Debug, PartialEq, Eq)]
pub enum CompletionError {
    /// The service answered with a status outside 200..=299; `body` is its
    /// error payload, as it came.
    ServiceError { status: u16, body: String },
    /// The service answered with success, but the body is not the envelope of a
    /// completion, or holds no choice.
    MalformedResponse { detail: String },
    /// No answer arrived at all.
    Transport { detail: String },
}

/// The mathematical value of a [`CompletionError`].
pub enum CompletionErrorView {
    ServiceError { status: u16, body: Seq<char> },
    MalformedResponse { detail: Seq<char> },
    Transport { detail: Seq<char> },
}

impl View for CompletionError {
    type V = CompletionErrorView;

    open spec fn view(&self) -> CompletionErrorView {
        match self {
            CompletionError::ServiceError { status, body } => CompletionErrorView::ServiceError {
                status: *status,
                body: body@,
            },
            CompletionError::MalformedResponse { detail } => CompletionErrorView::MalformedResponse {
                detail: detail@,
            },
            CompletionError::Transport { detail } => CompletionErrorView::Transport {
                detail: detail@,
            },
        }
    }
}

impl Clone for CompletionError {
    fn clone(&self) -> (copy: Self)
        ensures
            copy == *self,
    {
        match self {
            CompletionError::ServiceError { status, body } => CompletionError::ServiceError {
                status: *status,
                body: body.clone(),
            },
            CompletionError::MalformedResponse { detail } => CompletionError::MalformedResponse {
                detail: detail.clone(),
            },
            CompletionError::Transport { detail } => CompletionError::Transport {
                detail: detail.clone(),
            },
        }
    }
}

/// The text that the service generated, and what it cost.
#[derive(Debug, PartialEq, Eq)]
pub struct CompletionResult {
    pub text: String,
    pub usage: ChatUsage,
}

/// The mathematical value of a [`CompletionResult`].
pub struct CompletionResultView {
    pub text: Seq<char>,
    pub usage: ChatUsage,
}

impl View for CompletionResult {
    type V = CompletionResultView;

    open spec fn view(&self) -> CompletionResultView {
        CompletionResultView { text: self.text@, usage: self.usage }
    }
}

/// The mathematical value of the outcome of a completion call.
pub open spec fn completion_view(outcome: Result<CompletionResult, CompletionError>) -> Result<
    CompletionResultView,
    CompletionErrorView,
> {
    match outcome {
        Ok(result) => Ok(result@),
        Err(error) => Err(error@),
    }
}

/// The mathematical value of a decoded body: the envelope, or why there is none.
pub open spec fn decoded_view(decoded: Result<ChatResponse, String>) -> Result<
    ChatResponseView,
    Seq<char>,
> {
    match decoded {
        Ok(response) => Ok(response@),
        Err(detail) => Err(detail@),
    }
}

/// Whether a status reports success: the codes from 200 to 299.
pub open spec fn is_success_status(status: u16) -> bool {
    200 <= status < 300
}

/// What is said of an envelope without a choice.
pub open spec fn no_choice_detail() -> Seq<char> {
    "the response holds no choice"@
}

/// What the client concludes from a decoded body: the text of the first choice
/// in the list, with the usage; a body that did not decode, or an envelope
/// without a choice, is malformed.
pub open spec fn envelope_outcome(decoded: Result<ChatResponseView, Seq<char>>) -> Result<
    CompletionResultView,
    CompletionErrorView,
> {
    match decoded {
        Err(detail) => Err(CompletionErrorView::MalformedResponse { detail }),
        Ok(response) => if response.choices.len() == 0 {
            Err(CompletionErrorView::MalformedResponse { detail: no_choice_detail() })
        } else {
            Ok(CompletionResultView { text: response.choices[0].message.content, usage: response.usage })
        },
    }
}

/// What the client concludes from a whole answer: a status that is no success
/// makes the body an error payload, whatever it decodes to; otherwise the
/// decoded body decides.
pub open spec fn response_outcome(
    status: u16,
    body: Seq<char>,
    decoded: Result<ChatResponseView, Seq<char>>,
) -> Result<CompletionResultView, CompletionErrorView> {
    if is_success_status(status) {
        envelope_outcome(decoded)
    } else {
        Err(CompletionErrorView::ServiceError { status, body })
    }
}

/// Asks `reqwest::StatusCode` whether `status` is a success: the number is made
/// a status code by `StatusCode::from_u16`, which refuses what lies outside
/// 100..=999, and `StatusCode::is_success` holds of the codes 200..=299 alone.
#[verifier::external_body]
fn status_is_success(status: u16) -> (success: bool)
    ensures
        success == is_success_status(status),
{
    match reqwest::StatusCode::from_u16(status) {
        Ok(code) => code.is_success(),
        Err(_) => false,
    }
}

/// Looks at the status of an answer before its body is decoded: a success hands
/// the body back to be decoded; anything else is a service error that carries
/// the status and the body as they came.
pub fn check_status(status: u16, body: String) -> (checked: Result<String, CompletionError>)
    ensures
        is_success_status(status) ==> checked == Ok::<String, CompletionError>(body),
        !is_success_status(status) ==> checked == Err::<String, CompletionError>(
            CompletionError::ServiceError { status, body },
        ),
{
    if status_is_success(status) {
        Ok(body)
    } else {
        Err(CompletionError::ServiceError { status, body })
    }
}

/// Takes the completion out of a decoded body: the first choice of the list is
/// the one consumed.
pub fn read_envelope(decoded: Result<ChatResponse, String>) -> (outcome: Result<
    CompletionResult,
    CompletionError,
>)
    ensures
        completion_view(outcome) == envelope_outcome(decoded_view(decoded)),
{
    match decoded {
        Err(detail) => Err(CompletionError::MalformedResponse { detail }),
        Ok(response) => {
            let usage = response.usage;
            let mut choices = response.choices;
            if choices.len() == 0 {
                Err(
                    CompletionError::MalformedResponse {
                        detail: "the response holds no choice".to_owned(),
                    },
                )
            } else {
                let first = choices.swap_remove(0);
                Ok(CompletionResult { text: first.message.content, usage })
            }
        },
    }
}

/// Concludes from a whole answer. `decoded` is read only where the status is a
/// success.
pub fn interpret_response(status: u16, body: String, decoded: Result<ChatResponse, String>) -> (outcome:
    Result<CompletionResult, CompletionError>)
    ensures
        completion_view(outcome) == response_outcome(status, body@, decoded_view(decoded)),
{
    match check_status(status, body) {
        Ok(_) => read_envelope(decoded),
        Err(error) => Err(error),
    }
}

} // verus!
