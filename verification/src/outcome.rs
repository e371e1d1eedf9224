//! How one task ends: with its element rewritten, or with the reason why not.

use crate::completion::{CompletionError, CompletionErrorView};
use vstd::prelude::*;

verus! {

/// The script that puts a text into an element: run with the element as its
/// first argument and the text as its second, it replaces what the element
/// shows by the text, as it is.
pub fn mutation_script() -> (script: &'static str)
    ensures
        script@ == "arguments[0].innerText = arguments[1]"@,
{
    "arguments[0].innerText = arguments[1]"
}

/// Why the page session did not apply a text to its element.
#[derive(Debug, PartialEq, Eq)]
pub struct MutationError {
    pub detail: String,
}

/// The mathematical value of a [`MutationError`].
pub struct MutationErrorView {
    pub detail: Seq<char>,
}

impl View for MutationError {
    type V = MutationErrorView;

    open spec fn view(&self) -> MutationErrorView {
        MutationErrorView { detail: self.detail@ }
    }
}

impl Clone for MutationError {
    fn clone(&self) -> (copy: Self)
        ensures
            copy == *self,
    {
        MutationError { detail: self.detail.clone() }
    }
}

/// Why a task was given up: its completion failed, or its mutation did.
#[derive(Debug, PartialEq, Eq)]
pub enum TaskError {
    Completion(CompletionError),
    Mutation(MutationError),
}

/// The mathematical value of a [`TaskError`].
pub enum TaskErrorView {
    Completion(CompletionErrorView),
    Mutation(MutationErrorView),
}

impl View for TaskError {
    type V = TaskErrorView;

    open spec fn view(&self) -> TaskErrorView {
        match self {
            TaskError::Completion(error) => TaskErrorView::Completion(error@),
            TaskError::Mutation(error) => TaskErrorView::Mutation(error@),
        }
    }
}

impl Clone for TaskError {
    fn clone(&self) -> (copy: Self)
        ensures
            copy == *self,
    {
        match self {
            TaskError::Completion(error) => TaskError::Completion(error.clone()),
            TaskError::Mutation(error) => TaskError::Mutation(error.clone()),
        }
    }
}

/// The end of one task. `task` is the position of the task in its batch.
#[derive(Debug, PartialEq, Eq)]
pub enum DispatchOutcome {
    /// The element of the task now shows `text`.
    Success { task: usize, text: String },
    /// The element of the task was left as it was.
    Failure { task: usize, error: TaskError },
}

/// The mathematical value of a [`DispatchOutcome`].
pub enum OutcomeView {
    Success { task: int, text: Seq<char> },
    Failure { task: int, error: TaskErrorView },
}

impl OutcomeView {
    /// The task that the outcome is of.
    pub open spec fn task(self) -> int {
        match self {
            OutcomeView::Success { task, .. } => task,
            OutcomeView::Failure { task, .. } => task,
        }
    }
}

impl View for DispatchOutcome {
    type V = OutcomeView;

    open spec fn view(&self) -> OutcomeView {
        match self {
            DispatchOutcome::Success { task, text } => OutcomeView::Success {
                task: *task as int,
                text: text@,
            },
            DispatchOutcome::Failure { task, error } => OutcomeView::Failure {
                task: *task as int,
                error: error@,
            },
        }
    }
}

impl DeepView for DispatchOutcome {
    type V = OutcomeView;

    open spec fn deep_view(&self) -> OutcomeView {
        self@
    }
}

impl DispatchOutcome {
    /// The position of the task in its batch.
    pub fn task(&self) -> (task: usize)
        ensures
            task as int == self@.task(),
    {
        match self {
            DispatchOutcome::Success { task, .. } => *task,
            DispatchOutcome::Failure { task, .. } => *task,
        }
    }

    /// Whether the element of the task was rewritten.
    pub fn is_success(&self) -> (success: bool)
        ensures
            success == (self@ is Success),
    {
        match self {
            DispatchOutcome::Success { .. } => true,
            DispatchOutcome::Failure { .. } => false,
        }
    }
}

} // verus!
