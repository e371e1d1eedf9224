//! What holds of every run of the dispatcher.
//!
//! A run is a sequence of steps from the state in which every task is pending.
//! The steps may come in any order and with any answers; a step that the state
//! does not allow changes nothing.

use crate::chat::ChatRequestView;
use crate::collect::RewriteTaskView;
use crate::completion::{CompletionErrorView, CompletionResultView};
use crate::model::{failures, progress, reports_of, successes, DispatchState, PhaseView};
use crate::outcome::{MutationErrorView, OutcomeView, TaskErrorView};
use crate::preservation::{
    lemma_admit_wf, lemma_completed_wf, lemma_grant_wf, lemma_initial_wf, lemma_mutated_wf,
};
use vstd::prelude::*;
use vstd::set_lib::lemma_len_subset;

verus! {

/// One step of a run.
pub enum Step {
    /// The dispatcher admits the next pending task.
    Admit,
    /// The dispatcher grants the page session to the task that waited longest.
    Grant,
    /// The completion call of `task` ends with `answer`.
    Completed { task: int, answer: Result<CompletionResultView, CompletionErrorView> },
    /// The mutation of `task` ends with `applied`.
    Mutated { task: int, applied: Result<(), MutationErrorView> },
}

/// Whether the state allows the step.
pub open spec fn enabled(s: DispatchState, step: Step) -> bool {
    match step {
        Step::Admit => s.can_admit(),
        Step::Grant => s.can_grant(),
        Step::Completed { task, .. } => s.is_completing(task),
        Step::Mutated { task, .. } => s.is_mutating(task),
    }
}

/// The state after one step.
pub open spec fn step(s: DispatchState, step: Step) -> DispatchState {
    match step {
        Step::Admit => if s.can_admit() {
            s.admit_next()
        } else {
            s
        },
        Step::Grant => if s.can_grant() {
            s.grant()
        } else {
            s
        },
        Step::Completed { task, answer } => s.completed(task, answer),
        Step::Mutated { task, applied } => s.mutated(task, applied),
    }
}

/// The state after a sequence of steps.
pub open spec fn run(s: DispatchState, steps: Seq<Step>) -> DispatchState
    decreases steps.len(),
{
    if steps.len() == 0 {
        s
    } else {
        step(run(s, steps.drop_last()), steps.last())
    }
}

/// One step keeps a well-formed state well formed, and leaves the batch, the
/// template and the width as they were.
pub proof fn lemma_step_wf(s: DispatchState, st: Step)
    requires
        s.wf(),
    ensures
        step(s, st).wf(),
        step(s, st).tasks == s.tasks,
        step(s, st).template == s.template,
        step(s, st).width == s.width,
        !enabled(s, st) ==> step(s, st) == s,
{
    match st {
        Step::Admit => {
            if s.can_admit() {
                lemma_admit_wf(s);
            }
        },
        Step::Grant => {
            if s.can_grant() {
                lemma_grant_wf(s);
            }
        },
        Step::Completed { task, answer } => {
            lemma_completed_wf(s, task, answer);
        },
        Step::Mutated { task, applied } => {
            lemma_mutated_wf(s, task, applied);
        },
    }
}

/// Every state of every run is well formed.
pub proof fn lemma_run_wf(s: DispatchState, steps: Seq<Step>)
    requires
        s.wf(),
    ensures
        run(s, steps).wf(),
        run(s, steps).tasks == s.tasks,
        run(s, steps).template == s.template,
        run(s, steps).width == s.width,
    decreases steps.len(),
{
    if steps.len() > 0 {
        lemma_run_wf(s, steps.drop_last());
        lemma_step_wf(run(s, steps.drop_last()), steps.last());
    }
}

/// The concurrency bound: in a well-formed state the tasks whose completion
/// call is in flight are among those that hold a place in the pool, and these
/// are never more than the width.
pub proof fn lemma_concurrency_bound(s: DispatchState)
    requires
        s.wf(),
    ensures
        s.completing().finite(),
        s.completing().subset_of(s.active()),
        s.completing().len() <= s.active().len() <= s.width,
{
    assert(s.completing().subset_of(s.active())) by {
        assert forall|t: int| s.completing().contains(t) implies s.active().contains(t) by {
            assert(s.is_completing(t));
            assert(s.is_active(t));
        }
    }
    lemma_len_subset(s.completing(), s.active());
}

/// The concurrency bound holds at every point of every run, whatever the batch,
/// the width, the order of the steps and the answers.
pub proof fn lemma_run_concurrency_bound(
    template: ChatRequestView,
    tasks: Seq<RewriteTaskView>,
    width: nat,
    steps: Seq<Step>,
)
    ensures
        run(DispatchState::initial(template, tasks, width), steps).completing().finite(),
        run(DispatchState::initial(template, tasks, width), steps).completing().len() <= width,
{
    let initial = DispatchState::initial(template, tasks, width);
    lemma_initial_wf(template, tasks, width);
    lemma_run_wf(initial, steps);
    lemma_concurrency_bound(run(initial, steps));
}

/// Serialized mutation: in a well-formed state at most one mutation is in
/// flight.
pub proof fn lemma_single_writer(s: DispatchState)
    requires
        s.wf(),
    ensures
        s.mutating().finite(),
        s.mutating().len() <= 1,
{
    if s.session_busy() {
        let t = choose|t: int| s.is_mutating(t);
        assert(s.mutating() =~= Set::<int>::empty().insert(t)) by {
            assert forall|u: int| s.mutating().contains(u) implies u == t by {
                assert(s.is_mutating(u) && s.is_mutating(t));
            }
        }
    } else {
        assert(s.mutating() =~= Set::<int>::empty()) by {
            assert forall|u: int| !s.mutating().contains(u) by {
                if s.mutating().contains(u) {
                    assert(s.is_mutating(u));
                }
            }
        }
    }
}

/// At every point of every run at most one mutation is in flight, and a grant
/// is never allowed while one is.
pub proof fn lemma_run_single_writer(
    template: ChatRequestView,
    tasks: Seq<RewriteTaskView>,
    width: nat,
    steps: Seq<Step>,
)
    ensures
        run(DispatchState::initial(template, tasks, width), steps).mutating().finite(),
        run(DispatchState::initial(template, tasks, width), steps).mutating().len() <= 1,
        run(DispatchState::initial(template, tasks, width), steps).session_busy() ==> !run(
            DispatchState::initial(template, tasks, width),
            steps,
        ).can_grant(),
{
    let initial = DispatchState::initial(template, tasks, width);
    lemma_initial_wf(template, tasks, width);
    lemma_run_wf(initial, steps);
    lemma_single_writer(run(initial, steps));
}

/// Every outcome is a success or a failure, and the error sink holds one report
/// for each failure.
pub proof fn lemma_outcome_counts(outcomes: Seq<OutcomeView>, tasks: Seq<RewriteTaskView>)
    ensures
        successes(outcomes) + failures(outcomes) == outcomes.len(),
        reports_of(outcomes, tasks).len() == failures(outcomes),
    decreases outcomes.len(),
{
    if outcomes.len() > 0 {
        lemma_outcome_counts(outcomes.drop_last(), tasks);
    }
}

/// Completeness: a batch never has more outcomes than tasks; the successes and
/// the failures are all the outcomes; and the batch is finished exactly when
/// every task has reached its end. Then every task has one outcome and no
/// other, the pool is empty, nothing waits, and the page session is free.
pub proof fn lemma_completeness(s: DispatchState)
    requires
        s.wf(),
    ensures
        s.outcomes.len() <= s.tasks.len(),
        successes(s.outcomes) + failures(s.outcomes) == s.outcomes.len(),
        s.reports.len() == failures(s.outcomes),
        s.finished() <==> (forall|t: int| 0 <= t < s.tasks.len() ==> #[trigger] s.is_resolved(t)),
        s.finished() ==> forall|t: int| 0 <= t < s.tasks.len() ==> #[trigger] s.has_outcome(t),
        forall|j: int, k: int|
            0 <= j < s.outcomes.len() && 0 <= k < s.outcomes.len() && (#[trigger] s.outcomes[j]).task()
                == (#[trigger] s.outcomes[k]).task() ==> j == k,
        s.finished() ==> s.admitted == s.tasks.len() && s.active().len() == 0 && s.waiting.len()
            == 0 && !s.session_busy(),
{
    lemma_outcome_counts(s.outcomes, s.tasks);
    assert forall|j: int, k: int|
        0 <= j < s.outcomes.len() && 0 <= k < s.outcomes.len() && (#[trigger] s.outcomes[j]).task()
            == (#[trigger] s.outcomes[k]).task() implies j == k by {
        if j < k {
            assert(s.outcomes[j].task() != s.outcomes[k].task());
        }
        if k < j {
            assert(s.outcomes[k].task() != s.outcomes[j].task());
        }
    }
    if s.finished() {
        s.active().lemma_len0_is_empty();
        assert forall|t: int| 0 <= t < s.tasks.len() implies #[trigger] s.is_resolved(t) by {
            assert(!(s.phases[t] is Pending));
            assert(!s.active().contains(t));
            assert(!s.is_active(t));
        }
        assert forall|t: int| 0 <= t < s.tasks.len() implies #[trigger] s.has_outcome(t) by {
            assert(s.is_resolved(t));
        }
        if s.waiting.len() > 0 {
            assert(s.is_queued(s.waiting[0]));
            assert(s.is_active(s.waiting[0]));
            assert(s.active().contains(s.waiting[0]));
        }
        if s.session_busy() {
            let t = choose|t: int| s.is_mutating(t);
            assert(s.is_active(t));
            assert(s.active().contains(t));
        }
    }
    if forall|t: int| 0 <= t < s.tasks.len() ==> #[trigger] s.is_resolved(t) {
        assert(s.active() =~= Set::<int>::empty()) by {
            assert forall|t: int| !s.active().contains(t) by {
                if s.active().contains(t) {
                    assert(s.is_active(t));
                    assert(s.is_resolved(t));
                }
            }
        }
        if s.tasks.len() > 0 {
            let last = s.tasks.len() - 1;
            assert(s.is_resolved(last));
            assert(!(s.phases[last] is Pending));
        }
    }
}

/// Every finished run gave each task of the batch exactly one outcome.
pub proof fn lemma_run_completeness(
    template: ChatRequestView,
    tasks: Seq<RewriteTaskView>,
    width: nat,
    steps: Seq<Step>,
)
    requires
        run(DispatchState::initial(template, tasks, width), steps).finished(),
    ensures
        ({
            let end = run(DispatchState::initial(template, tasks, width), steps);
            &&& end.outcomes.len() == tasks.len()
            &&& successes(end.outcomes) + failures(end.outcomes) == tasks.len()
            &&& forall|t: int| 0 <= t < tasks.len() ==> #[trigger] end.has_outcome(t)
            &&& forall|j: int, k: int|
                0 <= j < end.outcomes.len() && 0 <= k < end.outcomes.len() && (
                #[trigger] end.outcomes[j]).task() == (#[trigger] end.outcomes[k]).task() ==> j
                    == k
        }),
{
    let initial = DispatchState::initial(template, tasks, width);
    lemma_initial_wf(template, tasks, width);
    lemma_run_wf(initial, steps);
    lemma_completeness(run(initial, steps));
}

/// No task is left behind: while a batch with a pool of at least one place is
/// not finished, the dispatcher can start something, or a call is in flight
/// whose answer will move it on.
pub proof fn lemma_never_stuck(s: DispatchState)
    requires
        s.wf(),
        s.width >= 1,
        !s.finished(),
    ensures
        s.can_grant() || s.can_admit() || exists|t: int|
            #![trigger s.is_completing(t)]
            #![trigger s.is_mutating(t)]
            s.is_completing(t) || s.is_mutating(t),
{
    lemma_completeness(s);
    if !s.can_admit() {
        assert(s.active().len() > 0);
        let t = s.active().choose();
        assert(s.active().contains(t));
        assert(s.is_active(t));
        if s.phases[t] is Queued {
            assert(s.is_queued(t));
            assert(s.waiting.contains(t));
            if !s.can_grant() {
                let u = choose|u: int| s.is_mutating(u);
                assert(s.is_mutating(u));
            }
        } else if s.phases[t] is Completing {
            assert(s.is_completing(t));
        } else {
            assert(s.is_mutating(t));
        }
    }
}

/// The steps behind the tasks of a batch in which one task moved on.
pub proof fn lemma_progress_update(phases: Seq<PhaseView>, t: int, phase: PhaseView)
    requires
        0 <= t < phases.len(),
    ensures
        progress(phases.update(t, phase)) == progress(phases) - phases[t].stage() + phase.stage(),
    decreases phases.len(),
{
    let updated = phases.update(t, phase);
    if t == phases.len() - 1 {
        assert(updated.drop_last() =~= phases.drop_last());
    } else {
        assert(updated.drop_last() =~= phases.drop_last().update(t, phase));
        lemma_progress_update(phases.drop_last(), t, phase);
    }
}

/// No task has more than four steps behind it.
pub proof fn lemma_progress_bound(phases: Seq<PhaseView>)
    ensures
        progress(phases) <= 4 * phases.len(),
    decreases phases.len(),
{
    if phases.len() > 0 {
        lemma_progress_bound(phases.drop_last());
    }
}

/// Every step that the state allows moves exactly one task on, so a batch of K
/// tasks is finished after at most 4 K such steps.
pub proof fn lemma_step_advances(s: DispatchState, st: Step)
    requires
        s.wf(),
        enabled(s, st),
    ensures
        progress(step(s, st).phases) > progress(s.phases),
        progress(step(s, st).phases) <= 4 * s.tasks.len(),
{
    lemma_step_wf(s, st);
    lemma_progress_bound(step(s, st).phases);
    match st {
        Step::Admit => {
            lemma_progress_update(s.phases, s.admitted as int, PhaseView::Completing);
        },
        Step::Grant => {
            lemma_grant_wf(s);
            let t = s.waiting[0];
            lemma_progress_update(
                s.phases,
                t,
                PhaseView::Mutating { text: s.phases[t]->Queued_text },
            );
        },
        Step::Completed { task, answer } => {
            lemma_progress_update(s.phases, task, step(s, st).phases[task]);
            assert(step(s, st).phases =~= s.phases.update(task, step(s, st).phases[task]));
        },
        Step::Mutated { task, applied } => {
            lemma_progress_update(s.phases, task, step(s, st).phases[task]);
            assert(step(s, st).phases =~= s.phases.update(task, step(s, st).phases[task]));
        },
    }
}

/// How many steps of a run changed anything: the steps that the state allowed.
pub open spec fn effective_steps(s: DispatchState, steps: Seq<Step>) -> nat
    decreases steps.len(),
{
    if steps.len() == 0 {
        0
    } else {
        effective_steps(s, steps.drop_last()) + if enabled(
            run(s, steps.drop_last()),
            steps.last(),
        ) {
            1nat
        } else {
            0nat
        }
    }
}

/// Every run comes to rest: of the steps of a run, however long, at most 4 K
/// change anything, where K is the size of the batch.
pub proof fn lemma_run_comes_to_rest(
    template: ChatRequestView,
    tasks: Seq<RewriteTaskView>,
    width: nat,
    steps: Seq<Step>,
)
    ensures
        effective_steps(DispatchState::initial(template, tasks, width), steps) <= progress(
            run(DispatchState::initial(template, tasks, width), steps).phases,
        ) <= 4 * tasks.len(),
    decreases steps.len(),
{
    let initial = DispatchState::initial(template, tasks, width);
    lemma_initial_wf(template, tasks, width);
    lemma_run_wf(initial, steps);
    lemma_progress_bound(run(initial, steps).phases);
    if steps.len() > 0 {
        let before = run(initial, steps.drop_last());
        lemma_run_comes_to_rest(template, tasks, width, steps.drop_last());
        lemma_run_wf(initial, steps.drop_last());
        lemma_step_wf(before, steps.last());
        if enabled(before, steps.last()) {
            lemma_step_advances(before, steps.last());
        }
    }
}

/// Asking the dispatcher for its next action is one step of a run: a grant
/// where the page session can be granted, else an admission where a task can be
/// admitted, else nothing.
pub proof fn lemma_next_action_is_a_step(s: DispatchState)
    ensures
        s.can_grant() ==> s.after_next_action() == step(s, Step::Grant),
        !s.can_grant() ==> s.after_next_action() == step(s, Step::Admit),
{
}

/// The outcome that awaits a task whose completion call will end with `answer`
/// and whose mutation, if it comes to one, with `applied`.
pub open spec fn expected_outcome(
    task: int,
    answer: Result<CompletionResultView, CompletionErrorView>,
    applied: Result<(), MutationErrorView>,
) -> OutcomeView {
    match answer {
        Err(error) => OutcomeView::Failure { task, error: TaskErrorView::Completion(error) },
        Ok(result) => match applied {
            Ok(_) => OutcomeView::Success { task, text: result.text },
            Err(error) => OutcomeView::Failure { task, error: TaskErrorView::Mutation(error) },
        },
    }
}

/// What an outcome means for the page: the element of its task, and the text
/// that the element now shows or the reason why it was left alone.
pub open spec fn effect(outcome: OutcomeView, tasks: Seq<RewriteTaskView>) -> (
    int,
    Result<Seq<char>, TaskErrorView>,
) {
    match outcome {
        OutcomeView::Success { task, text } => (tasks[task].element, Ok(text)),
        OutcomeView::Failure { task, error } => (tasks[task].element, Err(error)),
    }
}

/// Whether a step brings the answer that `answers` and `applied` hold for its
/// task. The dispatcher's own steps bring none.
pub open spec fn obeys(
    step: Step,
    answers: spec_fn(int) -> Result<CompletionResultView, CompletionErrorView>,
    applied: spec_fn(int) -> Result<(), MutationErrorView>,
) -> bool {
    match step {
        Step::Completed { task, answer } => answer == answers(task),
        Step::Mutated { task, applied: result } => result == applied(task),
        _ => true,
    }
}

/// Whether every answer in a run is the one that `answers` and `applied` hold
/// for its task.
pub open spec fn follows(
    steps: Seq<Step>,
    answers: spec_fn(int) -> Result<CompletionResultView, CompletionErrorView>,
    applied: spec_fn(int) -> Result<(), MutationErrorView>,
) -> bool {
    forall|i: int| 0 <= i < steps.len() ==> obeys(#[trigger] steps[i], answers, applied)
}

/// Whether a phase is one that a task with these answers can be in.
pub open spec fn agrees(
    phase: PhaseView,
    answer: Result<CompletionResultView, CompletionErrorView>,
    applied: Result<(), MutationErrorView>,
) -> bool {
    match phase {
        PhaseView::Pending => true,
        PhaseView::Completing => true,
        PhaseView::Queued { text } => answer matches Ok(result) && result.text == text,
        PhaseView::Mutating { text } => answer matches Ok(result) && result.text == text,
        PhaseView::Succeeded { text } => answer matches Ok(result) && result.text == text
            && applied is Ok,
        PhaseView::Failed { error } => match error {
            TaskErrorView::Completion(e) => answer == Err::<
                CompletionResultView,
                CompletionErrorView,
            >(e),
            TaskErrorView::Mutation(e) => answer is Ok && applied == Err::<(), MutationErrorView>(e),
        },
    }
}

/// Whether every task is in a phase that its own answers allow.
pub open spec fn all_agree(
    s: DispatchState,
    answers: spec_fn(int) -> Result<CompletionResultView, CompletionErrorView>,
    applied: spec_fn(int) -> Result<(), MutationErrorView>,
) -> bool {
    forall|t: int|
        0 <= t < s.phases.len() ==> agrees(#[trigger] s.phases[t], answers(t), applied(t))
}

/// An answer for one task touches no other: the phase of every other task is
/// what it was, whether the answer is a text or an error.
pub proof fn lemma_answers_touch_one_task(s: DispatchState, st: Step, other: int)
    requires
        0 <= other < s.phases.len(),
        st matches Step::Completed { task, .. } ==> task != other,
        st matches Step::Mutated { task, .. } ==> task != other,
        st is Completed || st is Mutated,
    ensures
        step(s, st).phases[other] == s.phases[other],
{
}

/// A failed completion neither cancels nor delays another task: every other
/// task stays in its phase, the texts that wait for the page session wait as
/// before, the session is as busy as it was, whatever the dispatcher could start
/// it still can, and the place of the failed task is free.
pub proof fn lemma_failure_disturbs_nothing(
    s: DispatchState,
    failing: int,
    error: CompletionErrorView,
)
    requires
        s.wf(),
        s.is_completing(failing),
    ensures
        ({
            let after = s.completed(failing, Err(error));
            &&& forall|other: int|
                0 <= other < s.phases.len() && other != failing ==> #[trigger] after.phases[other]
                    == s.phases[other]
            &&& after.waiting == s.waiting
            &&& after.session_busy() == s.session_busy()
            &&& s.can_grant() ==> after.can_grant()
            &&& s.can_admit() ==> after.can_admit()
            &&& after.active() == s.active().remove(failing)
            &&& after.active().len() == s.active().len() - 1
            &&& after.outcomes == s.outcomes.push(
                OutcomeView::Failure { task: failing, error: TaskErrorView::Completion(error) },
            )
        }),
{
    let after = s.completed(failing, Err(error));
    lemma_completed_wf(s, failing, Err(error));
    assert(after.session_busy() == s.session_busy()) by {
        if after.session_busy() {
            let u = choose|u: int| after.is_mutating(u);
            assert(s.is_mutating(u));
        }
        if s.session_busy() {
            let u = choose|u: int| s.is_mutating(u);
            assert(after.is_mutating(u));
        }
    }
}

/// One step keeps every task in a phase that its own answers allow.
proof fn lemma_step_agrees(
    s: DispatchState,
    st: Step,
    answers: spec_fn(int) -> Result<CompletionResultView, CompletionErrorView>,
    applied: spec_fn(int) -> Result<(), MutationErrorView>,
)
    requires
        s.wf(),
        all_agree(s, answers, applied),
        obeys(st, answers, applied),
    ensures
        all_agree(step(s, st), answers, applied),
{
    let n = step(s, st);
    lemma_step_wf(s, st);
    if enabled(s, st) {
        match st {
            Step::Grant => {
                lemma_grant_wf(s);
            },
            _ => {},
        }
        assert forall|t: int| 0 <= t < n.phases.len() implies agrees(
            #[trigger] n.phases[t],
            answers(t),
            applied(t),
        ) by {
            assert(agrees(s.phases[t], answers(t), applied(t)));
        }
    }
}

/// A run keeps every task in a phase that its own answers allow.
proof fn lemma_run_agrees(
    s: DispatchState,
    steps: Seq<Step>,
    answers: spec_fn(int) -> Result<CompletionResultView, CompletionErrorView>,
    applied: spec_fn(int) -> Result<(), MutationErrorView>,
)
    requires
        s.wf(),
        all_agree(s, answers, applied),
        follows(steps, answers, applied),
    ensures
        run(s, steps).wf(),
        all_agree(run(s, steps), answers, applied),
    decreases steps.len(),
{
    if steps.len() > 0 {
        let before = steps.drop_last();
        assert forall|i: int| 0 <= i < before.len() implies obeys(
            #[trigger] before[i],
            answers,
            applied,
        ) by {
            assert(before[i] == steps[i]);
        }
        lemma_run_agrees(s, before, answers, applied);
        assert(obeys(steps[steps.len() - 1], answers, applied));
        lemma_step_wf(run(s, before), steps.last());
        lemma_step_agrees(run(s, before), steps.last(), answers, applied);
    }
}

/// The outcome of a task follows from its own answers alone. In every run,
/// whatever the width, the order of the steps and the answers of the other
/// tasks, each outcome is the one that awaits its task.
pub proof fn lemma_outcomes_follow_own_answers(
    template: ChatRequestView,
    tasks: Seq<RewriteTaskView>,
    width: nat,
    steps: Seq<Step>,
    answers: spec_fn(int) -> Result<CompletionResultView, CompletionErrorView>,
    applied: spec_fn(int) -> Result<(), MutationErrorView>,
)
    requires
        follows(steps, answers, applied),
    ensures
        ({
            let end = run(DispatchState::initial(template, tasks, width), steps);
            forall|k: int|
                0 <= k < end.outcomes.len() ==> {
                    let outcome = #[trigger] end.outcomes[k];
                    &&& 0 <= outcome.task() < tasks.len()
                    &&& outcome == expected_outcome(
                        outcome.task(),
                        answers(outcome.task()),
                        applied(outcome.task()),
                    )
                }
        }),
{
    let initial = DispatchState::initial(template, tasks, width);
    lemma_initial_wf(template, tasks, width);
    lemma_run_agrees(initial, steps, answers, applied);
    lemma_run_wf(initial, steps);
    let end = run(initial, steps);
    assert forall|k: int| 0 <= k < end.outcomes.len() implies {
        let outcome = #[trigger] end.outcomes[k];
        &&& 0 <= outcome.task() < tasks.len()
        &&& outcome == expected_outcome(
            outcome.task(),
            answers(outcome.task()),
            applied(outcome.task()),
        )
    } by {
        let outcome = end.outcomes[k];
        assert(end.records(outcome));
        assert(agrees(
            end.phases[outcome.task()],
            answers(outcome.task()),
            applied(outcome.task()),
        ));
    }
}

/// The place that a task has in a batch from which the task at `absent` was
/// taken out, seen from the whole batch.
pub open spec fn place_in_whole(place: int, absent: int) -> int {
    if place < absent {
        place
    } else {
        place + 1
    }
}

/// Isolation. Take a batch in which the completion call of one task fails, and
/// the same batch without that task. Let both be run, each with any width and
/// any order of steps, and let every other task get the same answers in both
/// runs. Then each of the other tasks ends in both runs alike: the same element
/// is given the same text, or left alone for the same reason.
pub proof fn lemma_failure_is_isolated(
    template: ChatRequestView,
    tasks: Seq<RewriteTaskView>,
    failing: int,
    answers: spec_fn(int) -> Result<CompletionResultView, CompletionErrorView>,
    applied: spec_fn(int) -> Result<(), MutationErrorView>,
    width: nat,
    steps: Seq<Step>,
    width_without: nat,
    steps_without: Seq<Step>,
)
    requires
        0 <= failing < tasks.len(),
        answers(failing) is Err,
        follows(steps, answers, applied),
        follows(
            steps_without,
            |t: int| answers(place_in_whole(t, failing)),
            |t: int| applied(place_in_whole(t, failing)),
        ),
    ensures
        ({
            let with = run(DispatchState::initial(template, tasks, width), steps);
            let without = run(
                DispatchState::initial(template, tasks.remove(failing), width_without),
                steps_without,
            );
            forall|j: int, k: int|
                0 <= j < with.outcomes.len() && 0 <= k < without.outcomes.len() && (
                #[trigger] with.outcomes[j]).task() == place_in_whole(
                    (#[trigger] without.outcomes[k]).task(),
                    failing,
                ) ==> effect(with.outcomes[j], tasks) == effect(
                    without.outcomes[k],
                    tasks.remove(failing),
                )
        }),
{
    let rest = tasks.remove(failing);
    let rest_answers = |t: int| answers(place_in_whole(t, failing));
    let rest_applied = |t: int| applied(place_in_whole(t, failing));
    lemma_outcomes_follow_own_answers(template, tasks, width, steps, answers, applied);
    lemma_outcomes_follow_own_answers(
        template,
        rest,
        width_without,
        steps_without,
        rest_answers,
        rest_applied,
    );
    let with = run(DispatchState::initial(template, tasks, width), steps);
    let without = run(DispatchState::initial(template, rest, width_without), steps_without);
    assert forall|j: int, k: int|
        0 <= j < with.outcomes.len() && 0 <= k < without.outcomes.len() && (
        #[trigger] with.outcomes[j]).task() == place_in_whole(
            (#[trigger] without.outcomes[k]).task(),
            failing,
        ) implies effect(with.outcomes[j], tasks) == effect(without.outcomes[k], rest) by {
        let u = without.outcomes[k].task();
        assert(rest[u] == tasks[place_in_whole(u, failing)]);
    }
}

} // verus!
