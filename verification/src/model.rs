//! The dispatcher as a state machine over mathematical values.
//!
//! A batch is run by four kinds of steps. Two are taken by the dispatcher:
//! admitting the next pending task into the pool, and granting the page session
//! to the task that has waited longest for it. Two are answers from outside: a
//! completion call has finished, a mutation has finished. This file says what
//! each step does to the state and which states can be reached at all.

use crate::chat::ChatRequestView;
use crate::collect::RewriteTaskView;
use crate::completion::{CompletionErrorView, CompletionResultView};
use crate::outcome::{MutationErrorView, OutcomeView, TaskErrorView};
use crate::request::request_for;
use crate::sink::ErrorReportView;
use vstd::prelude::*;

verus! {

/// How far one task has come.
pub enum PhaseView {
    /// Not admitted yet.
    Pending,
    /// Its completion call is in flight.
    Completing,
    /// Its completion gave `text`; it waits for the page session.
    Queued { text: Seq<char> },
    /// The session is applying `text` to its element.
    Mutating { text: Seq<char> },
    /// Its element shows `text`.
    Succeeded { text: Seq<char> },
    /// It was given up, and its element left alone.
    Failed { error: TaskErrorView },
}

impl PhaseView {
    /// Whether the task holds a place in the pool: admitted, and not yet at its end.
    pub open spec fn is_active(self) -> bool {
        self is Completing || self is Queued || self is Mutating
    }

    /// Whether the task has reached its end.
    pub open spec fn is_resolved(self) -> bool {
        self is Succeeded || self is Failed
    }

    /// How many steps the task has behind it.
    pub open spec fn stage(self) -> nat {
        match self {
            PhaseView::Pending => 0,
            PhaseView::Completing => 1,
            PhaseView::Queued { .. } => 2,
            PhaseView::Mutating { .. } => 3,
            PhaseView::Succeeded { .. } => 4,
            PhaseView::Failed { .. } => 4,
        }
    }
}

/// What the dispatcher asks of its caller next.
pub enum ActionView {
    /// Send `request` to the completion service for `task`.
    Complete { task: int, request: ChatRequestView },
    /// Put `text` into the element `element` of the page, for `task`.
    Mutate { task: int, element: int, text: Seq<char> },
    /// Nothing can be started: wait for a call in flight to finish.
    Wait,
    /// Every task has its outcome.
    Done,
}

/// The phase in which an outcome leaves its task.
pub open spec fn resolved_phase(outcome: OutcomeView) -> PhaseView {
    match outcome {
        OutcomeView::Success { text, .. } => PhaseView::Succeeded { text },
        OutcomeView::Failure { error, .. } => PhaseView::Failed { error },
    }
}

/// The failures among `outcomes`, in their order, each with the source text of
/// its task: what the error sink holds after them.
pub open spec fn reports_of(outcomes: Seq<OutcomeView>, tasks: Seq<RewriteTaskView>) -> Seq<
    ErrorReportView,
>
    decreases outcomes.len(),
{
    if outcomes.len() == 0 {
        Seq::empty()
    } else {
        let before = reports_of(outcomes.drop_last(), tasks);
        match outcomes.last() {
            OutcomeView::Success { .. } => before,
            OutcomeView::Failure { task, error } => before.push(
                ErrorReportView { context: tasks[task].source_text, error },
            ),
        }
    }
}

/// How many of `outcomes` are successes.
pub open spec fn successes(outcomes: Seq<OutcomeView>) -> nat
    decreases outcomes.len(),
{
    if outcomes.len() == 0 {
        0
    } else {
        successes(outcomes.drop_last()) + if outcomes.last() is Success {
            1nat
        } else {
            0nat
        }
    }
}

/// How many of `outcomes` are failures.
pub open spec fn failures(outcomes: Seq<OutcomeView>) -> nat
    decreases outcomes.len(),
{
    if outcomes.len() == 0 {
        0
    } else {
        failures(outcomes.drop_last()) + if outcomes.last() is Failure {
            1nat
        } else {
            0nat
        }
    }
}

/// The steps that the tasks of `phases` have behind them, all together.
pub open spec fn progress(phases: Seq<PhaseView>) -> nat
    decreases phases.len(),
{
    if phases.len() == 0 {
        0
    } else {
        progress(phases.drop_last()) + phases.last().stage()
    }
}

/// The state of a dispatcher.
pub struct DispatchState {
    /// The prompt template of the run.
    pub template: ChatRequestView,
    /// The batch, in the order of submission.
    pub tasks: Seq<RewriteTaskView>,
    /// The width of the pool: how many tasks may be active at once.
    pub width: nat,
    /// The phase of each task.
    pub phases: Seq<PhaseView>,
    /// How many tasks were admitted: the tasks before this position.
    pub admitted: nat,
    /// The tasks that wait for the page session, the longest wait first.
    pub waiting: Seq<int>,
    /// The outcomes so far, in the order in which the tasks ended.
    pub outcomes: Seq<OutcomeView>,
    /// What the error sink holds.
    pub reports: Seq<ErrorReportView>,
}

impl DispatchState {
    /// The state before the first step: every task pending.
    pub open spec fn initial(
        template: ChatRequestView,
        tasks: Seq<RewriteTaskView>,
        width: nat,
    ) -> DispatchState {
        DispatchState {
            template,
            tasks,
            width,
            phases: Seq::new(tasks.len(), |t: int| PhaseView::Pending),
            admitted: 0,
            waiting: Seq::empty(),
            outcomes: Seq::empty(),
            reports: Seq::empty(),
        }
    }

    /// Whether `t` is a task of the batch that holds a place in the pool.
    pub open spec fn is_active(self, t: int) -> bool {
        0 <= t < self.phases.len() && self.phases[t].is_active()
    }

    /// Whether `t` is a task of the batch whose completion call is in flight.
    pub open spec fn is_completing(self, t: int) -> bool {
        0 <= t < self.phases.len() && self.phases[t] is Completing
    }

    /// Whether `t` is a task of the batch that waits for the page session.
    pub open spec fn is_queued(self, t: int) -> bool {
        0 <= t < self.phases.len() && self.phases[t] is Queued
    }

    /// Whether `t` is a task of the batch whose mutation is in flight.
    pub open spec fn is_mutating(self, t: int) -> bool {
        0 <= t < self.phases.len() && self.phases[t] is Mutating
    }

    /// Whether `t` is a task of the batch that has reached its end.
    pub open spec fn is_resolved(self, t: int) -> bool {
        0 <= t < self.phases.len() && self.phases[t].is_resolved()
    }

    /// Whether `outcome` is of a task of the batch that ended with it.
    pub open spec fn records(self, outcome: OutcomeView) -> bool {
        0 <= outcome.task() < self.phases.len() && self.phases[outcome.task()] == resolved_phase(
            outcome,
        )
    }

    /// Whether an outcome of task `t` is among the outcomes so far.
    pub open spec fn has_outcome(self, t: int) -> bool {
        exists|k: int| 0 <= k < self.outcomes.len() && (#[trigger] self.outcomes[k]).task() == t
    }

    /// The tasks that hold a place in the pool.
    pub open spec fn active(self) -> Set<int> {
        Set::new(|t: int| self.is_active(t))
    }

    /// The tasks whose completion call is in flight.
    pub open spec fn completing(self) -> Set<int> {
        Set::new(|t: int| self.is_completing(t))
    }

    /// The tasks whose mutation is in flight.
    pub open spec fn mutating(self) -> Set<int> {
        Set::new(|t: int| self.is_mutating(t))
    }

    /// Whether the page session is at work.
    pub open spec fn session_busy(self) -> bool {
        exists|t: int| self.is_mutating(t)
    }

    /// Whether every task has its outcome.
    pub open spec fn finished(self) -> bool {
        self.outcomes.len() == self.tasks.len()
    }

    /// What holds of every state that the steps reach.
    pub open spec fn wf(self) -> bool {
        &&& self.phases.len() == self.tasks.len()
        &&& self.admitted <= self.tasks.len()
        &&& forall|t: int|
            0 <= t < self.phases.len() ==> ((#[trigger] self.phases[t]) is Pending <==> t
                >= self.admitted)
        &&& self.active().finite()
        &&& self.outcomes.len() + self.active().len() == self.admitted
        &&& self.active().len() <= self.width
        &&& forall|a: int, b: int|
            #![trigger self.is_mutating(a), self.is_mutating(b)]
            self.is_mutating(a) && self.is_mutating(b) ==> a == b
        &&& self.waiting.no_duplicates()
        &&& forall|k: int| 0 <= k < self.waiting.len() ==> self.is_queued(#[trigger] self.waiting[k])
        &&& forall|t: int| #[trigger] self.is_queued(t) ==> self.waiting.contains(t)
        &&& forall|k: int| 0 <= k < self.outcomes.len() ==> self.records(#[trigger] self.outcomes[k])
        &&& forall|j: int, k: int|
            0 <= j < k < self.outcomes.len() ==> (#[trigger] self.outcomes[j]).task() != (
            #[trigger] self.outcomes[k]).task()
        &&& forall|t: int| #[trigger]
            self.is_resolved(t) ==> exists|k: int|
                0 <= k < self.outcomes.len() && (#[trigger] self.outcomes[k]).task() == t
        &&& self.reports == reports_of(self.outcomes, self.tasks)
    }

    /// Whether the next pending task can be admitted: there is one, and the pool
    /// has a free place.
    pub open spec fn can_admit(self) -> bool {
        self.admitted < self.tasks.len() && self.active().len() < self.width
    }

    /// Admits the next pending task: its completion call is now in flight.
    pub open spec fn admit_next(self) -> DispatchState {
        DispatchState {
            phases: self.phases.update(self.admitted as int, PhaseView::Completing),
            admitted: self.admitted + 1,
            ..self
        }
    }

    /// Whether the page session can be granted: a task waits, and the session is
    /// not at work.
    pub open spec fn can_grant(self) -> bool {
        self.waiting.len() > 0 && !self.session_busy()
    }

    /// Grants the page session to the task that has waited longest.
    pub open spec fn grant(self) -> DispatchState {
        let t = self.waiting[0];
        DispatchState {
            phases: self.phases.update(
                t,
                PhaseView::Mutating { text: self.phases[t]->Queued_text },
            ),
            waiting: self.waiting.drop_first(),
            ..self
        }
    }

    /// Ends task `t` as a failure: its phase, its outcome, and its report to
    /// the error sink.
    pub open spec fn fail(self, t: int, error: TaskErrorView) -> DispatchState {
        DispatchState {
            phases: self.phases.update(t, PhaseView::Failed { error }),
            outcomes: self.outcomes.push(OutcomeView::Failure { task: t, error }),
            reports: self.reports.push(
                ErrorReportView { context: self.tasks[t].source_text, error },
            ),
            ..self
        }
    }

    /// The completion call of task `t` has finished with `answer`: a text sends
    /// the task to wait for the page session, behind those that wait already; an
    /// error ends the task. An answer for a task whose completion call is not in
    /// flight changes nothing.
    pub open spec fn completed(
        self,
        t: int,
        answer: Result<CompletionResultView, CompletionErrorView>,
    ) -> DispatchState {
        if !self.is_completing(t) {
            self
        } else {
            match answer {
                Ok(result) => DispatchState {
                    phases: self.phases.update(t, PhaseView::Queued { text: result.text }),
                    waiting: self.waiting.push(t),
                    ..self
                },
                Err(error) => self.fail(t, TaskErrorView::Completion(error)),
            }
        }
    }

    /// The mutation of task `t` has finished with `applied`: success ends the
    /// task with the text that was applied; an error ends it as a failure. An
    /// answer for a task whose mutation is not in flight changes nothing.
    pub open spec fn mutated(self, t: int, applied: Result<(), MutationErrorView>) -> DispatchState {
        if !self.is_mutating(t) {
            self
        } else {
            match applied {
                Ok(_) => {
                    let text = self.phases[t]->Mutating_text;
                    DispatchState {
                        phases: self.phases.update(t, PhaseView::Succeeded { text }),
                        outcomes: self.outcomes.push(OutcomeView::Success { task: t, text }),
                        ..self
                    }
                },
                Err(error) => self.fail(t, TaskErrorView::Mutation(error)),
            }
        }
    }

    /// What the dispatcher asks next. The page session comes first: a text that
    /// waits is applied as soon as the session is free. Then the pool is filled,
    /// in the order of submission.
    pub open spec fn next_action(self) -> ActionView {
        if self.can_grant() {
            let t = self.waiting[0];
            ActionView::Mutate {
                task: t,
                element: self.tasks[t].element,
                text: self.phases[t]->Queued_text,
            }
        } else if self.can_admit() {
            let t = self.admitted as int;
            ActionView::Complete {
                task: t,
                request: request_for(self.template, self.tasks[t].source_text),
            }
        } else if self.finished() {
            ActionView::Done
        } else {
            ActionView::Wait
        }
    }

    /// The state in which asking for the next action leaves the dispatcher.
    pub open spec fn after_next_action(self) -> DispatchState {
        if self.can_grant() {
            self.grant()
        } else if self.can_admit() {
            self.admit_next()
        } else {
            self
        }
    }
}

} // verus!
