//! The dispatcher: the bounded pool of task pipelines and the single-writer
//! discipline of the page session, as a machine that its caller drives.
//!
//! The dispatcher starts nothing itself. Its caller asks for the next action,
//! performs it (a completion call, a mutation), and reports how each call ended.
//! All decisions are made here: which task is admitted and when, when the page
//! session may be used and for which task, and what becomes of a task.

use crate::chat::ChatRequest;
use crate::collect::RewriteTask;
use crate::completion::{completion_view, CompletionError, CompletionResult};
use crate::model::{ActionView, DispatchState, PhaseView};
use crate::outcome::{DispatchOutcome, MutationError, MutationErrorView, TaskError};
use crate::preservation::{
    lemma_admit_wf, lemma_completed_wf, lemma_fail_wf, lemma_grant_wf, lemma_initial_wf,
    lemma_mutated_wf,
};
use crate::request::build_request;
use crate::sink::ErrorSink;
use std::collections::VecDeque;
use vstd::prelude::*;

verus! {

/// How far one task has come.
#[derive(Debug, PartialEq, Eq)]
pub enum Phase {
    /// Not admitted yet.
    Pending,
    /// Its completion call is in flight.
    Completing,
    /// Its completion gave `text`; it waits for the page session.
    Queued { text: String },
    /// The session is applying `text` to its element.
    Mutating { text: String },
    /// Its element shows `text`.
    Succeeded { text: String },
    /// It was given up, and its element left alone.
    Failed { error: TaskError },
}

impl View for Phase {
    type V = PhaseView;

    open spec fn view(&self) -> PhaseView {
        match self {
            Phase::Pending => PhaseView::Pending,
            Phase::Completing => PhaseView::Completing,
            Phase::Queued { text } => PhaseView::Queued { text: text@ },
            Phase::Mutating { text } => PhaseView::Mutating { text: text@ },
            Phase::Succeeded { text } => PhaseView::Succeeded { text: text@ },
            Phase::Failed { error } => PhaseView::Failed { error: error@ },
        }
    }
}

impl DeepView for Phase {
    type V = PhaseView;

    open spec fn deep_view(&self) -> PhaseView {
        self@
    }
}

impl Clone for Phase {
    fn clone(&self) -> (copy: Self)
        ensures
            copy == *self,
    {
        match self {
            Phase::Pending => Phase::Pending,
            Phase::Completing => Phase::Completing,
            Phase::Queued { text } => Phase::Queued { text: text.clone() },
            Phase::Mutating { text } => Phase::Mutating { text: text.clone() },
            Phase::Succeeded { text } => Phase::Succeeded { text: text.clone() },
            Phase::Failed { error } => Phase::Failed { error: error.clone() },
        }
    }
}

impl Phase {
    /// The text that the phase carries; the empty text where it carries none.
    fn text(&self) -> (text: String)
        ensures
            text@ == match self@ {
                PhaseView::Queued { text } => text,
                PhaseView::Mutating { text } => text,
                PhaseView::Succeeded { text } => text,
                _ => Seq::<char>::empty(),
            },
    {
        match self {
            Phase::Queued { text } => text.clone(),
            Phase::Mutating { text } => text.clone(),
            Phase::Succeeded { text } => text.clone(),
            _ => String::new(),
        }
    }
}

/// What the dispatcher asks of its caller next.
#[derive(Debug, PartialEq, Eq)]
pub enum Action {
    /// Send `request` to the completion service for `task`, and report the
    /// answer with `completion_finished`.
    Complete { task: usize, request: ChatRequest },
    /// Put `text` into the element `element` of the page, for `task`, and report
    /// the answer with `mutation_finished`.
    Mutate { task: usize, element: usize, text: String },
    /// Nothing can be started: wait for a call in flight to finish.
    Wait,
    /// Every task has its outcome.
    Done,
}

impl View for Action {
    type V = ActionView;

    open spec fn view(&self) -> ActionView {
        match self {
            Action::Complete { task, request } => ActionView::Complete {
                task: *task as int,
                request: request@,
            },
            Action::Mutate { task, element, text } => ActionView::Mutate {
                task: *task as int,
                element: *element as int,
                text: text@,
            },
            Action::Wait => ActionView::Wait,
            Action::Done => ActionView::Done,
        }
    }
}

/// The mathematical value of the answer of the page session.
pub open spec fn mutation_view(applied: Result<(), MutationError>) -> Result<(), MutationErrorView> {
    match applied {
        Ok(_) => Ok(()),
        Err(error) => Err(error@),
    }
}

/// The positions that a queue of tasks holds.
pub open spec fn positions(queue: Seq<usize>) -> Seq<int> {
    queue.map_values(|t: usize| t as int)
}

/// The dispatcher of one batch.
pub struct Dispatcher {
    template: ChatRequest,
    tasks: Vec<RewriteTask>,
    width: usize,
    phases: Vec<Phase>,
    admitted: usize,
    active: usize,
    busy: bool,
    waiting: VecDeque<usize>,
    outcomes: Vec<DispatchOutcome>,
    sink: ErrorSink,
}

impl View for Dispatcher {
    type V = DispatchState;

    closed spec fn view(&self) -> DispatchState {
        DispatchState {
            template: self.template@,
            tasks: self.tasks.deep_view(),
            width: self.width as nat,
            phases: self.phases.deep_view(),
            admitted: self.admitted as nat,
            waiting: positions(self.waiting@),
            outcomes: self.outcomes.deep_view(),
            reports: self.sink@,
        }
    }
}

impl Dispatcher {
    /// Whether the dispatcher is in a state that its steps reach. Every function
    /// below keeps it so.
    pub closed spec fn wf(&self) -> bool {
        &&& self@.wf()
        &&& self.active == self@.active().len()
        &&& self.busy == self@.session_busy()
    }

    /// The state of a dispatcher is one that the steps of the machine reach, so
    /// that what holds of every such state holds of it.
    pub proof fn lemma_state_wf(&self)
        requires
            self.wf(),
        ensures
            self@.wf(),
    {
    }

    /// A dispatcher for `tasks`, none of them admitted yet, with a pool of
    /// `width` places.
    pub fn new(template: ChatRequest, tasks: Vec<RewriteTask>, width: usize) -> (dispatcher: Self)
        ensures
            dispatcher.wf(),
            dispatcher@ == DispatchState::initial(template@, tasks.deep_view(), width as nat),
    {
        let mut phases: Vec<Phase> = Vec::new();
        let mut i: usize = 0;
        while i < tasks.len()
            invariant
                i <= tasks.len(),
                phases.len() == i,
                forall|t: int| 0 <= t < i ==> phases[t]@ is Pending,
            decreases tasks.len() - i,
        {
            phases.push(Phase::Pending);
            i += 1;
        }
        let dispatcher = Dispatcher {
            template,
            tasks,
            width,
            phases,
            admitted: 0,
            active: 0,
            busy: false,
            waiting: VecDeque::new(),
            outcomes: Vec::new(),
            sink: ErrorSink::new(),
        };
        proof {
            let initial = DispatchState::initial(template@, tasks.deep_view(), width as nat);
            lemma_initial_wf(template@, tasks.deep_view(), width as nat);
            assert(dispatcher@.phases =~= initial.phases);
            assert(dispatcher@.waiting =~= initial.waiting);
            assert(dispatcher@.outcomes =~= initial.outcomes);
            assert(dispatcher@ == initial);
            assert(initial.active() =~= Set::<int>::empty());
        }
        dispatcher
    }

    /// The width of the pool.
    pub fn width(&self) -> (width: usize)
        ensures
            width == self@.width,
    {
        self.width
    }

    /// The size of the batch.
    pub fn task_count(&self) -> (count: usize)
        ensures
            count == self@.tasks.len(),
    {
        proof {
            assert(self.tasks.deep_view().len() == self.tasks.len());
        }
        self.tasks.len()
    }

    /// How many tasks hold a place in the pool. It is never more than the width.
    pub fn in_flight(&self) -> (count: usize)
        requires
            self.wf(),
        ensures
            count == self@.active().len(),
            count <= self@.width,
    {
        self.active
    }

    /// Whether the page session is at work.
    pub fn session_busy(&self) -> (busy: bool)
        requires
            self.wf(),
        ensures
            busy == self@.session_busy(),
    {
        self.busy
    }

    /// Whether every task has its outcome.
    pub fn is_finished(&self) -> (finished: bool)
        ensures
            finished == self@.finished(),
    {
        proof {
            assert(self.tasks.deep_view().len() == self.tasks.len());
            assert(self.outcomes.deep_view().len() == self.outcomes.len());
        }
        self.outcomes.len() == self.tasks.len()
    }

    /// How far task `task` has come; `None` where the batch has no such task.
    pub fn phase(&self, task: usize) -> (phase: Option<Phase>)
        ensures
            task < self@.phases.len() ==> phase is Some && phase->Some_0@ == self@.phases[task as int],
            task >= self@.phases.len() ==> phase is None,
    {
        proof {
            assert(self.phases.deep_view().len() == self.phases.len());
        }
        if task < self.phases.len() {
            Some(self.phases[task].clone())
        } else {
            None
        }
    }

    /// The outcomes so far, in the order in which the tasks ended.
    pub fn outcomes(&self) -> (outcomes: &Vec<DispatchOutcome>)
        ensures
            outcomes.deep_view() == self@.outcomes,
    {
        &self.outcomes
    }

    /// The error sink, with the failures so far.
    pub fn error_sink(&self) -> (sink: &ErrorSink)
        ensures
            sink@ == self@.reports,
    {
        &self.sink
    }

    /// Decides what is to be done next, and counts it as started.
    ///
    /// The page session comes first: if a text waits and the session is free,
    /// the task that has waited longest gets it. Otherwise, if a task is pending
    /// and the pool has a free place, the first pending task is admitted and its
    /// request built from the template. Otherwise nothing changes, and the
    /// answer says whether the batch is done or a call in flight is to be
    /// waited for.
    pub fn next_action(&mut self) -> (action: Action)
        requires
            old(self).wf(),
        ensures
            final(self).wf(),
            action@ == old(self)@.next_action(),
            final(self)@ == old(self)@.after_next_action(),
    {
        proof {
            assert(self.tasks.deep_view().len() == self.tasks.len());
            assert(self.outcomes.deep_view().len() == self.outcomes.len());
            assert(positions(self.waiting@).len() == self.waiting@.len());
        }
        if !self.busy && self.waiting.len() > 0 {
            let ghost before = self@;
            proof {
                lemma_grant_wf(before);
                assert(before.waiting[0] == self.waiting@[0] as int);
            }
            let t = self.waiting.pop_front().unwrap();
            let text = self.phases[t].text();
            let element = self.tasks[t].element;
            self.phases.set(t, Phase::Mutating { text: text.clone() });
            self.busy = true;
            proof {
                assert(self@.phases =~= before.grant().phases);
                assert(self@.waiting =~= before.grant().waiting);
                assert(self@ == before.grant());
            }
            Action::Mutate { task: t, element, text }
        } else if self.admitted < self.tasks.len() && self.active < self.width {
            let ghost before = self@;
            proof {
                lemma_admit_wf(before);
            }
            let t = self.admitted;
            let request = build_request(&self.template, self.tasks[t].source_text.as_str());
            self.phases.set(t, Phase::Completing);
            self.admitted = t + 1;
            self.active = self.active + 1;
            proof {
                assert(self@.phases =~= before.admit_next().phases);
                assert(self@ == before.admit_next());
            }
            Action::Complete { task: t, request }
        } else if self.outcomes.len() == self.tasks.len() {
            Action::Done
        } else {
            Action::Wait
        }
    }

    /// Ends task `t` as a failure: the outcome is kept, and the failure goes to
    /// the error sink with the source text of the task.
    fn fail(&mut self, t: usize, error: TaskError)
        requires
            old(self).wf(),
            old(self)@.is_completing(t as int) || old(self)@.is_mutating(t as int),
        ensures
            final(self)@ == old(self)@.fail(t as int, error@),
            final(self).active == old(self).active - 1,
            final(self).busy == old(self).busy,
            final(self)@.wf(),
    {
        let ghost before = self@;
        proof {
            lemma_fail_wf(before, t as int, error@);
        }
        let context = self.tasks[t].source_text.clone();
        self.sink.record(context, error.clone());
        self.phases.set(t, Phase::Failed { error: error.clone() });
        self.outcomes.push(DispatchOutcome::Failure { task: t, error });
        self.active = self.active - 1;
        proof {
            assert(self@.phases =~= before.fail(t as int, error@).phases);
            assert(self@.outcomes =~= before.fail(t as int, error@).outcomes);
            assert(self@ == before.fail(t as int, error@));
        }
    }

    /// Takes the answer of the completion service for `task`.
    ///
    /// A text sends the task to wait for the page session, behind those that
    /// wait already. An error ends the task: its outcome is a failure, the error
    /// sink gets its source text and the error, and its place in the pool is
    /// free. No other task is touched either way. The result tells whether a
    /// completion call of `task` was in flight; if none was, nothing changes.
    pub fn completion_finished(
        &mut self,
        task: usize,
        answer: Result<CompletionResult, CompletionError>,
    ) -> (accepted: bool)
        requires
            old(self).wf(),
        ensures
            final(self).wf(),
            accepted == old(self)@.is_completing(task as int),
            final(self)@ == old(self)@.completed(task as int, completion_view(answer)),
    {
        let ghost before = self@;
        proof {
            lemma_completed_wf(before, task as int, completion_view(answer));
        }
        if task >= self.phases.len() {
            return false;
        }
        match &self.phases[task] {
            Phase::Completing => {},
            _ => {
                return false;
            },
        }
        match answer {
            Ok(result) => {
                self.phases.set(task, Phase::Queued { text: result.text });
                self.waiting.push_back(task);
                proof {
                    let after = before.completed(task as int, completion_view(answer));
                    assert(self@.phases =~= after.phases);
                    assert(self@.waiting =~= after.waiting);
                    assert(self@ == after);
                }
            },
            Err(error) => {
                self.fail(task, TaskError::Completion(error));
            },
        }
        true
    }

    /// Takes the answer of the page session for `task`.
    ///
    /// Success ends the task with the text that was applied. An error ends it
    /// as a failure, reported like a failed completion. Either way the session
    /// is free again, and so is the place of the task in the pool. The result
    /// tells whether a mutation of `task` was in flight; if none was, nothing
    /// changes.
    pub fn mutation_finished(&mut self, task: usize, applied: Result<(), MutationError>) -> (accepted:
        bool)
        requires
            old(self).wf(),
        ensures
            final(self).wf(),
            accepted == old(self)@.is_mutating(task as int),
            final(self)@ == old(self)@.mutated(task as int, mutation_view(applied)),
    {
        let ghost before = self@;
        proof {
            lemma_mutated_wf(before, task as int, mutation_view(applied));
        }
        if task >= self.phases.len() {
            return false;
        }
        match &self.phases[task] {
            Phase::Mutating { .. } => {},
            _ => {
                return false;
            },
        }
        match applied {
            Ok(_) => {
                let text = self.phases[task].text();
                self.phases.set(task, Phase::Succeeded { text: text.clone() });
                self.outcomes.push(DispatchOutcome::Success { task, text });
                self.active = self.active - 1;
                self.busy = false;
                proof {
                    let after = before.mutated(task as int, mutation_view(applied));
                    assert(self@.phases =~= after.phases);
                    assert(self@.outcomes =~= after.outcomes);
                    assert(self@ == after);
                }
            },
            Err(error) => {
                self.fail(task, TaskError::Mutation(error));
                self.busy = false;
            },
        }
        true
    }

    /// Ends the run and hands out the outcomes.
    pub fn into_outcomes(self) -> (outcomes: Vec<DispatchOutcome>)
        ensures
            outcomes.deep_view() == self@.outcomes,
    {
        self.outcomes
    }
}

} // verus!
