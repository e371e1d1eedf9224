//! Every step of the dispatcher keeps its state well formed.

use crate::chat::ChatRequestView;
use crate::collect::RewriteTaskView;
use crate::completion::{CompletionErrorView, CompletionResultView};
use crate::model::{reports_of, DispatchState};
use crate::outcome::{MutationErrorView, OutcomeView, TaskErrorView};
use crate::sink::ErrorReportView;
use vstd::prelude::*;

verus! {

/// The failures of a list of outcomes that grew by one.
pub proof fn lemma_reports_of_push(
    outcomes: Seq<OutcomeView>,
    tasks: Seq<RewriteTaskView>,
    outcome: OutcomeView,
)
    ensures
        outcome is Success ==> reports_of(outcomes.push(outcome), tasks) == reports_of(
            outcomes,
            tasks,
        ),
        outcome matches OutcomeView::Failure { task, error } ==> reports_of(
            outcomes.push(outcome),
            tasks,
        ) == reports_of(outcomes, tasks).push(
            ErrorReportView { context: tasks[task].source_text, error },
        ),
{
    assert(outcomes.push(outcome).drop_last() =~= outcomes);
}

/// Whether the page session is at work depends on the mutations in flight
/// alone: two states with the same ones agree on it.
proof fn lemma_same_mutations(s: DispatchState, n: DispatchState)
    requires
        forall|t: int| #[trigger] n.is_mutating(t) <==> s.is_mutating(t),
    ensures
        n.session_busy() == s.session_busy(),
{
    if n.session_busy() {
        let t = choose|t: int| n.is_mutating(t);
        assert(s.is_mutating(t));
    }
    if s.session_busy() {
        let t = choose|t: int| s.is_mutating(t);
        assert(n.is_mutating(t));
    }
}

/// The state before the first step is well formed.
pub proof fn lemma_initial_wf(template: ChatRequestView, tasks: Seq<RewriteTaskView>, width: nat)
    ensures
        DispatchState::initial(template, tasks, width).wf(),
{
    let s = DispatchState::initial(template, tasks, width);
    assert(s.active() =~= Set::<int>::empty());
}

/// Admitting the next pending task keeps the state well formed.
pub proof fn lemma_admit_wf(s: DispatchState)
    requires
        s.wf(),
        s.can_admit(),
    ensures
        s.admit_next().wf(),
        s.admit_next().active() == s.active().insert(s.admitted as int),
        !s.active().contains(s.admitted as int),
        s.admit_next().session_busy() == s.session_busy(),
{
    let n = s.admit_next();
    let t = s.admitted as int;
    assert(s.phases[t] is Pending);
    lemma_same_mutations(s, n);
    assert(n.active() =~= s.active().insert(t));
    assert forall|u: int| #[trigger] n.is_queued(u) implies n.waiting.contains(u) by {
        assert(s.is_queued(u));
    }
    assert forall|k: int| 0 <= k < n.waiting.len() implies n.is_queued(#[trigger] n.waiting[k]) by {
        assert(s.is_queued(s.waiting[k]));
    }
    assert forall|k: int| 0 <= k < n.outcomes.len() implies n.records(#[trigger] n.outcomes[k]) by {
        assert(s.records(s.outcomes[k]));
    }
    assert forall|u: int| #[trigger] n.is_resolved(u) implies exists|k: int|
        0 <= k < n.outcomes.len() && (#[trigger] n.outcomes[k]).task() == u by {
        assert(s.is_resolved(u));
        let k = choose|k: int| 0 <= k < s.outcomes.len() && (#[trigger] s.outcomes[k]).task() == u;
        assert(n.outcomes[k].task() == u);
    }
    assert forall|a: int, b: int|
        #![trigger n.is_mutating(a), n.is_mutating(b)]
        n.is_mutating(a) && n.is_mutating(b) implies a == b by {
        assert(s.is_mutating(a) && s.is_mutating(b));
    }
}

/// Granting the page session keeps the state well formed, and the task that gets
/// it is the only one whose mutation is in flight.
pub proof fn lemma_grant_wf(s: DispatchState)
    requires
        s.wf(),
        s.can_grant(),
    ensures
        s.grant().wf(),
        s.grant().active() == s.active(),
        s.is_queued(s.waiting[0]),
        s.grant().is_mutating(s.waiting[0]),
        s.grant().session_busy(),
{
    let n = s.grant();
    let t = s.waiting[0];
    assert(s.is_queued(t));
    assert(n.active() =~= s.active());
    assert forall|a: int, b: int|
        #![trigger n.is_mutating(a), n.is_mutating(b)]
        n.is_mutating(a) && n.is_mutating(b) implies a == b by {
        if a != t {
            assert(s.is_mutating(a));
        }
        if b != t {
            assert(s.is_mutating(b));
        }
    }
    assert forall|k: int| 0 <= k < n.waiting.len() implies n.is_queued(#[trigger] n.waiting[k]) by {
        assert(n.waiting[k] == s.waiting[k + 1]);
        assert(s.is_queued(s.waiting[k + 1]));
        assert(s.waiting[k + 1] != s.waiting[0]);
    }
    assert forall|u: int| #[trigger] n.is_queued(u) implies n.waiting.contains(u) by {
        assert(s.is_queued(u));
        let k = choose|k: int| 0 <= k < s.waiting.len() && s.waiting[k] == u;
        assert(k != 0);
        assert(n.waiting[k - 1] == u);
    }
    assert forall|k: int| 0 <= k < n.outcomes.len() implies n.records(#[trigger] n.outcomes[k]) by {
        assert(s.records(s.outcomes[k]));
    }
    assert forall|u: int| #[trigger] n.is_resolved(u) implies exists|k: int|
        0 <= k < n.outcomes.len() && (#[trigger] n.outcomes[k]).task() == u by {
        assert(s.is_resolved(u));
        let k = choose|k: int| 0 <= k < s.outcomes.len() && (#[trigger] s.outcomes[k]).task() == u;
        assert(n.outcomes[k].task() == u);
    }
}

/// Ending an active task as a failure keeps the state well formed and frees its
/// place in the pool.
pub proof fn lemma_fail_wf(s: DispatchState, t: int, error: TaskErrorView)
    requires
        s.wf(),
        s.is_completing(t) || s.is_mutating(t),
    ensures
        s.fail(t, error).wf(),
        s.fail(t, error).active() == s.active().remove(t),
        s.active().contains(t),
{
    let n = s.fail(t, error);
    let outcome = OutcomeView::Failure { task: t, error };
    assert(s.is_active(t));
    assert(n.active() =~= s.active().remove(t));
    lemma_reports_of_push(s.outcomes, s.tasks, outcome);
    assert forall|a: int, b: int|
        #![trigger n.is_mutating(a), n.is_mutating(b)]
        n.is_mutating(a) && n.is_mutating(b) implies a == b by {
        assert(s.is_mutating(a) && s.is_mutating(b));
    }
    assert forall|k: int| 0 <= k < n.waiting.len() implies n.is_queued(#[trigger] n.waiting[k]) by {
        assert(s.is_queued(s.waiting[k]));
    }
    assert forall|u: int| #[trigger] n.is_queued(u) implies n.waiting.contains(u) by {
        assert(s.is_queued(u));
    }
    assert forall|k: int| 0 <= k < n.outcomes.len() implies n.records(#[trigger] n.outcomes[k]) by {
        if k < s.outcomes.len() {
            assert(s.records(s.outcomes[k]));
        }
    }
    assert forall|j: int, k: int| 0 <= j < k < n.outcomes.len() implies (#[trigger] n.outcomes[j]).task()
        != (#[trigger] n.outcomes[k]).task() by {
        assert(s.records(s.outcomes[j]));
    }
    assert forall|u: int| #[trigger] n.is_resolved(u) implies exists|k: int|
        0 <= k < n.outcomes.len() && (#[trigger] n.outcomes[k]).task() == u by {
        if u == t {
            assert(n.outcomes[s.outcomes.len() as int].task() == t);
        } else {
            assert(s.is_resolved(u));
            let k = choose|k: int| 0 <= k < s.outcomes.len() && (#[trigger] s.outcomes[k]).task() == u;
            assert(n.outcomes[k].task() == u);
        }
    }
}

/// An answer of the completion service keeps the state well formed.
pub proof fn lemma_completed_wf(
    s: DispatchState,
    t: int,
    answer: Result<CompletionResultView, CompletionErrorView>,
)
    requires
        s.wf(),
    ensures
        s.completed(t, answer).wf(),
        s.is_completing(t) && answer is Ok ==> s.completed(t, answer).active() == s.active(),
        s.is_completing(t) && answer is Err ==> s.completed(t, answer).active()
            == s.active().remove(t) && s.active().contains(t),
        s.completed(t, answer).session_busy() == s.session_busy(),
{
    if s.is_completing(t) {
        lemma_same_mutations(s, s.completed(t, answer));
        match answer {
            Ok(result) => {
                let n = s.completed(t, answer);
                assert(n.active() =~= s.active());
                assert(!s.waiting.contains(t)) by {
                    if s.waiting.contains(t) {
                        let k = choose|k: int| 0 <= k < s.waiting.len() && s.waiting[k] == t;
                        assert(s.is_queued(s.waiting[k]));
                    }
                }
                assert forall|a: int, b: int|
                    #![trigger n.is_mutating(a), n.is_mutating(b)]
                    n.is_mutating(a) && n.is_mutating(b) implies a == b by {
                    assert(s.is_mutating(a) && s.is_mutating(b));
                }
                assert forall|k: int| 0 <= k < n.waiting.len() implies n.is_queued(
                    #[trigger] n.waiting[k],
                ) by {
                    if k < s.waiting.len() {
                        assert(s.is_queued(s.waiting[k]));
                    }
                }
                assert forall|u: int| #[trigger] n.is_queued(u) implies n.waiting.contains(u) by {
                    if u == t {
                        assert(n.waiting[s.waiting.len() as int] == t);
                    } else {
                        assert(s.is_queued(u));
                        let k = choose|k: int| 0 <= k < s.waiting.len() && s.waiting[k] == u;
                        assert(n.waiting[k] == u);
                    }
                }
                assert forall|k: int| 0 <= k < n.outcomes.len() implies n.records(
                    #[trigger] n.outcomes[k],
                ) by {
                    assert(s.records(s.outcomes[k]));
                }
                assert forall|u: int| #[trigger] n.is_resolved(u) implies exists|k: int|
                    0 <= k < n.outcomes.len() && (#[trigger] n.outcomes[k]).task() == u by {
                    assert(s.is_resolved(u));
                    let k = choose|k: int|
                        0 <= k < s.outcomes.len() && (#[trigger] s.outcomes[k]).task() == u;
                    assert(n.outcomes[k].task() == u);
                }
                assert(n.waiting.no_duplicates()) by {
                    assert forall|i: int, j: int|
                        0 <= i < n.waiting.len() && 0 <= j < n.waiting.len() && i != j implies n.waiting[i]
                        != n.waiting[j] by {
                        if i < s.waiting.len() && j < s.waiting.len() {
                        } else if i < s.waiting.len() {
                            assert(s.waiting.contains(s.waiting[i]));
                        } else {
                            assert(s.waiting.contains(s.waiting[j]));
                        }
                    }
                }
            },
            Err(error) => {
                lemma_fail_wf(s, t, TaskErrorView::Completion(error));
            },
        }
    }
}

/// An answer of the page session keeps the state well formed and frees the
/// place of the task in the pool.
pub proof fn lemma_mutated_wf(s: DispatchState, t: int, applied: Result<(), MutationErrorView>)
    requires
        s.wf(),
    ensures
        s.mutated(t, applied).wf(),
        s.is_mutating(t) ==> s.mutated(t, applied).active() == s.active().remove(t)
            && s.active().contains(t),
        s.is_mutating(t) ==> !s.mutated(t, applied).session_busy(),
{
    if s.is_mutating(t) {
        let n = s.mutated(t, applied);
        assert(!n.session_busy()) by {
            if n.session_busy() {
                let u = choose|u: int| n.is_mutating(u);
                assert(u != t);
                assert(s.is_mutating(u) && s.is_mutating(t));
            }
        }
        match applied {
            Ok(_) => {
                let text = s.phases[t]->Mutating_text;
                let outcome = OutcomeView::Success { task: t, text };
                assert(s.is_active(t));
                assert(n.active() =~= s.active().remove(t));
                lemma_reports_of_push(s.outcomes, s.tasks, outcome);
                assert forall|a: int, b: int|
                    #![trigger n.is_mutating(a), n.is_mutating(b)]
                    n.is_mutating(a) && n.is_mutating(b) implies a == b by {
                    assert(s.is_mutating(a) && s.is_mutating(b));
                }
                assert forall|k: int| 0 <= k < n.waiting.len() implies n.is_queued(
                    #[trigger] n.waiting[k],
                ) by {
                    assert(s.is_queued(s.waiting[k]));
                }
                assert forall|u: int| #[trigger] n.is_queued(u) implies n.waiting.contains(u) by {
                    assert(s.is_queued(u));
                }
                assert forall|k: int| 0 <= k < n.outcomes.len() implies n.records(
                    #[trigger] n.outcomes[k],
                ) by {
                    if k < s.outcomes.len() {
                        assert(s.records(s.outcomes[k]));
                    }
                }
                assert forall|j: int, k: int| 0 <= j < k < n.outcomes.len() implies (
                #[trigger] n.outcomes[j]).task() != (#[trigger] n.outcomes[k]).task() by {
                    assert(s.records(s.outcomes[j]));
                }
                assert forall|u: int| #[trigger] n.is_resolved(u) implies exists|k: int|
                    0 <= k < n.outcomes.len() && (#[trigger] n.outcomes[k]).task() == u by {
                    if u == t {
                        assert(n.outcomes[s.outcomes.len() as int].task() == t);
                    } else {
                        assert(s.is_resolved(u));
                        let k = choose|k: int|
                            0 <= k < s.outcomes.len() && (#[trigger] s.outcomes[k]).task() == u;
                        assert(n.outcomes[k].task() == u);
                    }
                }
            },
            Err(error) => {
                lemma_fail_wf(s, t, TaskErrorView::Mutation(error));
            },
        }
    }
}

} // verus!
