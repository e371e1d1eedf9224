use page_rewriter::chat::{ChatChoice, ChatMessage, ChatRequest, ChatResponse, ChatUsage};
use page_rewriter::collect::{collect_candidates, RewriteTask};
use page_rewriter::completion::{interpret_response, CompletionError, CompletionResult};
use page_rewriter::dispatch::{Action, Dispatcher, Phase};
use page_rewriter::outcome::{mutation_script, DispatchOutcome, MutationError, TaskError};
use page_rewriter::request::new_template;
use page_rewriter::sink::ErrorReport;

/// What a stub of the completion service sends back: status, body, decoded body.
type Answer = (u16, String, Result<ChatResponse, String>);

fn usage() -> ChatUsage {
    ChatUsage { prompt_tokens: 1, completion_tokens: 1, total_tokens: 2 }
}

fn ok_answer(text: &str) -> Answer {
    let response = ChatResponse {
        id: "id".to_string(),
        object: "chat.completion".to_string(),
        created: 0,
        choices: vec![ChatChoice {
            index: 0,
            message: ChatMessage { role: "assistant".to_string(), content: text.to_string() },
            finish_reason: None,
        }],
        usage: usage(),
    };
    (200, "{...}".to_string(), Ok(response))
}

fn no_choice_answer() -> Answer {
    let response = ChatResponse {
        id: "id".to_string(),
        object: "chat.completion".to_string(),
        created: 0,
        choices: Vec::new(),
        usage: usage(),
    };
    (200, "{\"choices\":[]}".to_string(), Ok(response))
}

fn rate_limited() -> Answer {
    (429, "{\"error\":\"rate limited\"}".to_string(), Err("not an envelope".to_string()))
}

/// The text that a request asks to have rewritten: its last turn.
fn asked(request: &ChatRequest) -> String {
    request.messages.last().unwrap().content.clone()
}

/// In which order the calls in flight are answered.
#[derive(Clone, Copy, PartialEq)]
enum Order {
    OldestFirst,
    NewestFirst,
    /// Every completion is answered before any mutation is.
    CompletionsFirst,
}

struct Run {
    page: Vec<String>,
    outcomes: Vec<DispatchOutcome>,
    reports: Vec<ErrorReport>,
    requests: Vec<(usize, ChatRequest)>,
    mutations: Vec<(usize, usize, String)>,
    max_completions: usize,
    max_in_flight: usize,
    max_mutations: usize,
    stalled: bool,
}

fn drive(
    texts: &[&str],
    min_length: usize,
    width: usize,
    order: Order,
    service: &dyn Fn(&ChatRequest) -> Answer,
    session: &dyn Fn(usize, &str) -> Result<(), MutationError>,
) -> Run {
    let mut page: Vec<String> = texts.iter().map(|s| s.to_string()).collect();
    let tasks = collect_candidates(&page, min_length);
    let count = tasks.len();
    let template = new_template("rewrite".to_string(), None);
    let mut dispatcher = Dispatcher::new(template, tasks, width);
    assert_eq!(dispatcher.task_count(), count);
    assert_eq!(dispatcher.width(), width);
    let mut completions: Vec<(usize, ChatRequest)> = Vec::new();
    let mut mutations: Vec<(usize, usize, String)> = Vec::new();
    let mut run = Run {
        page: Vec::new(),
        outcomes: Vec::new(),
        reports: Vec::new(),
        requests: Vec::new(),
        mutations: Vec::new(),
        max_completions: 0,
        max_in_flight: 0,
        max_mutations: 0,
        stalled: false,
    };
    let mut steps = 0;
    loop {
        steps += 1;
        assert!(steps <= 8 * count + 8, "the run does not end");
        let action = dispatcher.next_action();
        assert!(dispatcher.in_flight() <= width);
        assert_eq!(dispatcher.session_busy(), !mutations.is_empty() || matches!(action, Action::Mutate { .. }));
        match action {
            Action::Complete { task, request } => {
                run.requests.push((task, ChatRequest {
                    model: request.model.clone(),
                    messages: request.messages.clone(),
                    sampling: request.sampling,
                }));
                completions.push((task, request));
            }
            Action::Mutate { task, element, text } => {
                run.mutations.push((task, element, text.clone()));
                mutations.push((task, element, text));
            }
            Action::Wait => {
                assert!(!dispatcher.is_finished());
                if completions.is_empty() && mutations.is_empty() {
                    run.stalled = true;
                    break;
                }
                let take_mutation = match order {
                    Order::CompletionsFirst => completions.is_empty(),
                    _ => !mutations.is_empty(),
                };
                if take_mutation {
                    let (task, element, text) = mutations.pop().unwrap();
                    let applied = session(element, &text);
                    if applied.is_ok() {
                        page[element] = text;
                    }
                    assert!(dispatcher.mutation_finished(task, applied));
                } else {
                    let (task, request) = match order {
                        Order::NewestFirst => completions.pop().unwrap(),
                        _ => completions.remove(0),
                    };
                    let (status, body, decoded) = service(&request);
                    assert!(dispatcher.completion_finished(task, interpret_response(status, body, decoded)));
                }
            }
            Action::Done => {
                assert!(dispatcher.is_finished());
                break;
            }
        }
        run.max_completions = run.max_completions.max(completions.len());
        run.max_mutations = run.max_mutations.max(mutations.len());
        run.max_in_flight = run.max_in_flight.max(dispatcher.in_flight());
    }
    for report in dispatcher.error_sink().reports() {
        run.reports.push(ErrorReport { context: report.context.clone(), error: report.error.clone() });
    }
    assert_eq!(dispatcher.error_sink().len(), run.reports.len());
    let so_far = dispatcher.outcomes().len();
    run.outcomes = dispatcher.into_outcomes();
    assert_eq!(run.outcomes.len(), so_far);
    run.page = page;
    run
}

fn always(text: &'static str) -> impl Fn(&ChatRequest) -> Answer {
    move |_request| ok_answer(text)
}

fn upper(request: &ChatRequest) -> Answer {
    ok_answer(&asked(request).to_uppercase())
}

fn session_ok(_element: usize, _text: &str) -> Result<(), MutationError> {
    Ok(())
}

fn successes(outcomes: &[DispatchOutcome]) -> usize {
    outcomes.iter().filter(|o| o.is_success()).count()
}

fn sorted_tasks(outcomes: &[DispatchOutcome]) -> Vec<usize> {
    let mut tasks: Vec<usize> = outcomes.iter().map(|o| o.task()).collect();
    tasks.sort();
    tasks
}

#[test]
fn success_path_rewrites_the_element() {
    let run = drive(&["hello world"], 5, 8, Order::OldestFirst, &always("ahoy world"), &session_ok);
    assert_eq!(run.page, vec!["ahoy world".to_string()]);
    assert_eq!(
        run.outcomes,
        vec![DispatchOutcome::Success { task: 0, text: "ahoy world".to_string() }]
    );
    assert!(run.reports.is_empty());
    assert_eq!(run.requests.len(), 1);
    assert_eq!(asked(&run.requests[0].1), "hello world");
    assert_eq!(run.requests[0].1.messages[0].role, "system");
    assert_eq!(run.requests[0].1.messages[0].content, "rewrite");
    assert_eq!(run.requests[0].1.messages[1].role, "user");
    assert_eq!(run.mutations, vec![(0, 0, "ahoy world".to_string())]);
}

#[test]
fn service_error_is_reported_and_the_element_left_alone() {
    let run =
        drive(&["hello world"], 5, 8, Order::OldestFirst, &|_request| rate_limited(), &session_ok);
    let error = TaskError::Completion(CompletionError::ServiceError {
        status: 429,
        body: "{\"error\":\"rate limited\"}".to_string(),
    });
    assert_eq!(run.page, vec!["hello world".to_string()]);
    assert!(run.mutations.is_empty());
    assert_eq!(run.outcomes, vec![DispatchOutcome::Failure { task: 0, error: error.clone() }]);
    assert_eq!(run.reports, vec![ErrorReport { context: "hello world".to_string(), error }]);
}

#[test]
fn malformed_response_fails_the_task_without_mutation() {
    let run = drive(
        &["hello world"],
        5,
        8,
        Order::OldestFirst,
        &|_request| no_choice_answer(),
        &session_ok,
    );
    assert_eq!(run.page, vec!["hello world".to_string()]);
    assert!(run.mutations.is_empty());
    assert_eq!(run.outcomes.len(), 1);
    match &run.outcomes[0] {
        DispatchOutcome::Failure {
            task: 0,
            error: TaskError::Completion(CompletionError::MalformedResponse { .. }),
        } => {}
        other => panic!("not a malformed response: {:?}", other),
    }
    assert_eq!(run.reports.len(), 1);
    assert_eq!(run.reports[0].context, "hello world");
}

#[test]
fn mutation_error_is_reported_like_a_failed_completion() {
    let refuse = |element: usize, _text: &str| {
        if element == 1 {
            Err(MutationError { detail: "session dropped".to_string() })
        } else {
            Ok(())
        }
    };
    let run = drive(&["one", "two", "three"], 0, 2, Order::OldestFirst, &upper, &refuse);
    assert_eq!(run.page, vec!["ONE".to_string(), "two".to_string(), "THREE".to_string()]);
    let error = TaskError::Mutation(MutationError { detail: "session dropped".to_string() });
    assert_eq!(
        run.outcomes,
        vec![
            DispatchOutcome::Success { task: 0, text: "ONE".to_string() },
            DispatchOutcome::Failure { task: 1, error: error.clone() },
            DispatchOutcome::Success { task: 2, text: "THREE".to_string() },
        ]
    );
    assert_eq!(run.reports, vec![ErrorReport { context: "two".to_string(), error }]);
}

#[test]
fn a_failing_task_leaves_the_others_as_if_it_were_absent() {
    let fail_beta = |request: &ChatRequest| {
        if asked(request) == "beta" {
            rate_limited()
        } else {
            upper(request)
        }
    };
    for order in [Order::OldestFirst, Order::NewestFirst, Order::CompletionsFirst] {
        for width in 1..=5 {
            let with =
                drive(&["alpha", "beta", "gamma", "delta"], 0, width, order, &fail_beta, &session_ok);
            let without = drive(&["alpha", "gamma", "delta"], 0, width, order, &upper, &session_ok);
            assert_eq!(with.page, vec!["ALPHA", "beta", "GAMMA", "DELTA"]);
            assert_eq!(without.page, vec!["ALPHA", "GAMMA", "DELTA"]);
            assert_eq!(successes(&with.outcomes), 3);
            assert_eq!(successes(&without.outcomes), 3);
            assert_eq!(with.reports.len(), 1);
            assert_eq!(with.reports[0].context, "beta");
            assert!(without.reports.is_empty());
            let mut texts_with: Vec<String> =
                with.mutations.iter().map(|m| m.2.clone()).collect();
            let mut texts_without: Vec<String> =
                without.mutations.iter().map(|m| m.2.clone()).collect();
            texts_with.sort();
            texts_without.sort();
            assert_eq!(texts_with, texts_without);
        }
    }
}

#[test]
fn in_flight_completions_never_exceed_the_width() {
    let texts = ["a", "b", "c", "d", "e", "f", "g", "h", "i", "j"];
    for order in [Order::OldestFirst, Order::NewestFirst, Order::CompletionsFirst] {
        for width in 1..=texts.len() {
            let run = drive(&texts, 0, width, order, &upper, &session_ok);
            assert!(run.max_completions <= width);
            assert!(run.max_in_flight <= width);
            assert_eq!(run.max_completions, width);
            assert_eq!(run.outcomes.len(), texts.len());
        }
    }
}

#[test]
fn every_task_gets_exactly_one_outcome() {
    let flaky = |request: &ChatRequest| match asked(request).as_str() {
        "b" => rate_limited(),
        "d" => no_choice_answer(),
        "f" => (200, "<html>".to_string(), Err("expected value".to_string())),
        _ => upper(request),
    };
    let refuse_g = |_element: usize, text: &str| {
        if text == "G" {
            Err(MutationError { detail: "stale element".to_string() })
        } else {
            Ok(())
        }
    };
    for order in [Order::OldestFirst, Order::NewestFirst, Order::CompletionsFirst] {
        for width in [1, 2, 3, 8, 100] {
            let run = drive(&["a", "b", "c", "d", "e", "f", "g", "h"], 0, width, order, &flaky, &refuse_g);
            assert!(!run.stalled);
            assert_eq!(run.outcomes.len(), 8);
            assert_eq!(sorted_tasks(&run.outcomes), vec![0, 1, 2, 3, 4, 5, 6, 7]);
            assert_eq!(successes(&run.outcomes), 4);
            assert_eq!(run.outcomes.len() - successes(&run.outcomes), 4);
            assert_eq!(run.reports.len(), 4);
            assert_eq!(run.page, vec!["A", "b", "C", "d", "E", "f", "g", "H"]);
        }
    }
}

#[test]
fn mutations_reach_the_session_one_at_a_time() {
    let texts = ["a", "b", "c", "d", "e", "f"];
    for order in [Order::OldestFirst, Order::NewestFirst, Order::CompletionsFirst] {
        for width in 1..=6 {
            let run = drive(&texts, 0, width, order, &upper, &session_ok);
            assert_eq!(run.max_mutations, 1);
            assert_eq!(run.mutations.len(), 6);
            assert_eq!(run.page, vec!["A", "B", "C", "D", "E", "F"]);
        }
    }
}

#[test]
fn texts_wait_for_the_session_in_the_order_of_their_answers() {
    let template = new_template("p".to_string(), None);
    let tasks = collect_candidates(&vec!["a".to_string(), "b".to_string(), "c".to_string()], 0);
    let mut d = Dispatcher::new(template, tasks, 3);
    for expected in 0..3 {
        match d.next_action() {
            Action::Complete { task, .. } => assert_eq!(task, expected),
            other => panic!("{:?}", other),
        }
    }
    assert_eq!(d.next_action(), Action::Wait);
    let text = |t: &str| Ok(CompletionResult { text: t.to_string(), usage: usage() });
    assert!(d.completion_finished(2, text("C")));
    assert!(d.completion_finished(0, text("A")));
    assert!(d.completion_finished(1, text("B")));
    assert_eq!(d.next_action(), Action::Mutate { task: 2, element: 2, text: "C".to_string() });
    assert!(d.session_busy());
    // the session is taken: nothing else may start
    assert_eq!(d.next_action(), Action::Wait);
    assert!(d.mutation_finished(2, Ok(())));
    assert!(!d.session_busy());
    assert_eq!(d.next_action(), Action::Mutate { task: 0, element: 0, text: "A".to_string() });
    assert!(d.mutation_finished(0, Ok(())));
    assert_eq!(d.next_action(), Action::Mutate { task: 1, element: 1, text: "B".to_string() });
    assert!(d.mutation_finished(1, Ok(())));
    assert_eq!(d.next_action(), Action::Done);
    assert_eq!(sorted_tasks(d.outcomes()), vec![0, 1, 2]);
    assert_eq!(d.outcomes()[0], DispatchOutcome::Success { task: 2, text: "C".to_string() });
}

#[test]
fn pending_tasks_are_admitted_in_the_order_of_submission() {
    let run = drive(&["a", "b", "c", "d", "e"], 0, 2, Order::NewestFirst, &upper, &session_ok);
    let admitted: Vec<usize> = run.requests.iter().map(|r| r.0).collect();
    assert_eq!(admitted, vec![0, 1, 2, 3, 4]);
    let asked_texts: Vec<String> = run.requests.iter().map(|r| asked(&r.1)).collect();
    assert_eq!(asked_texts, vec!["a", "b", "c", "d", "e"]);
}

#[test]
fn a_failure_frees_its_place_in_the_pool() {
    let template = new_template("p".to_string(), None);
    let tasks = collect_candidates(&vec!["a".to_string(), "b".to_string()], 0);
    let mut d = Dispatcher::new(template, tasks, 1);
    assert!(matches!(d.next_action(), Action::Complete { task: 0, .. }));
    assert_eq!(d.in_flight(), 1);
    assert_eq!(d.next_action(), Action::Wait);
    let error = CompletionError::Transport { detail: "connection refused".to_string() };
    assert!(d.completion_finished(0, Err(error.clone())));
    assert_eq!(d.in_flight(), 0);
    assert!(matches!(d.next_action(), Action::Complete { task: 1, .. }));
    assert_eq!(
        d.outcomes()[0],
        DispatchOutcome::Failure { task: 0, error: TaskError::Completion(error) }
    );
}

#[test]
fn answers_that_nothing_waits_for_change_nothing() {
    let template = new_template("p".to_string(), None);
    let tasks = collect_candidates(&vec!["a".to_string(), "b".to_string()], 0);
    let mut d = Dispatcher::new(template, tasks, 1);
    let text = || Ok(CompletionResult { text: "x".to_string(), usage: usage() });
    // nothing admitted yet
    assert!(!d.completion_finished(0, text()));
    assert!(!d.mutation_finished(0, Ok(())));
    // no such task
    assert!(!d.completion_finished(2, text()));
    assert!(!d.mutation_finished(usize::MAX, Ok(())));
    assert_eq!(d.in_flight(), 0);
    assert!(d.outcomes().is_empty());
    assert!(matches!(d.next_action(), Action::Complete { task: 0, .. }));
    // a mutation answer while the completion is in flight
    assert!(!d.mutation_finished(0, Ok(())));
    assert!(d.completion_finished(0, text()));
    // a second answer for the same completion
    assert!(!d.completion_finished(0, text()));
    assert_eq!(d.next_action(), Action::Mutate { task: 0, element: 0, text: "x".to_string() });
    assert!(!d.completion_finished(0, text()));
    assert!(d.mutation_finished(0, Ok(())));
    assert!(!d.mutation_finished(0, Ok(())));
    assert_eq!(d.outcomes().len(), 1);
    assert_eq!(d.error_sink().len(), 0);
}

#[test]
fn an_empty_batch_is_done_at_once() {
    for width in [0, 1, 8] {
        let run = drive(&[], 0, width, Order::OldestFirst, &upper, &session_ok);
        assert!(!run.stalled);
        assert!(run.outcomes.is_empty());
        assert!(run.requests.is_empty());
    }
}

#[test]
fn a_pool_without_a_place_admits_nothing() {
    let run = drive(&["a", "b"], 0, 0, Order::OldestFirst, &upper, &session_ok);
    assert!(run.stalled);
    assert!(run.outcomes.is_empty());
    assert!(run.requests.is_empty());
    assert_eq!(run.page, vec!["a", "b"]);
}

#[test]
fn elements_are_named_by_their_place_on_the_page() {
    let run = drive(
        &["short", "a text that is long enough", "no", "another text that is long enough"],
        20,
        8,
        Order::OldestFirst,
        &upper,
        &session_ok,
    );
    assert_eq!(
        run.mutations,
        vec![
            (0, 1, "A TEXT THAT IS LONG ENOUGH".to_string()),
            (1, 3, "ANOTHER TEXT THAT IS LONG ENOUGH".to_string()),
        ]
    );
    assert_eq!(run.page[0], "short");
    assert_eq!(run.page[2], "no");
}

#[test]
fn the_text_reaches_the_element_as_it_came() {
    let text = "  line one\n\tline two — “quoted” 𝄞  ";
    let answer = move |_request: &ChatRequest| ok_answer(text);
    let run = drive(&["source"], 0, 1, Order::OldestFirst, &answer, &session_ok);
    assert_eq!(run.page, vec![text.to_string()]);
}

#[test]
fn the_mutation_script_sets_the_inner_text() {
    assert_eq!(mutation_script(), "arguments[0].innerText = arguments[1]");
}

#[test]
fn the_phase_of_a_task_can_be_watched() {
    let tasks = collect_candidates(&vec!["a".to_string(), "b".to_string()], 0);
    let mut d = Dispatcher::new(new_template("p".to_string(), None), tasks, 1);
    assert_eq!(d.phase(0), Some(Phase::Pending));
    assert_eq!(d.phase(1), Some(Phase::Pending));
    assert_eq!(d.phase(2), None);
    d.next_action();
    assert_eq!(d.phase(0), Some(Phase::Completing));
    assert_eq!(d.phase(1), Some(Phase::Pending));
    d.completion_finished(0, Ok(CompletionResult { text: "A".to_string(), usage: usage() }));
    assert_eq!(d.phase(0), Some(Phase::Queued { text: "A".to_string() }));
    d.next_action();
    assert_eq!(d.phase(0), Some(Phase::Mutating { text: "A".to_string() }));
    // the pool has one place, and task 0 still holds it
    assert_eq!(d.next_action(), Action::Wait);
    assert_eq!(d.phase(1), Some(Phase::Pending));
    d.mutation_finished(0, Err(MutationError { detail: "d".to_string() }));
    let failed = Phase::Failed {
        error: TaskError::Mutation(MutationError { detail: "d".to_string() }),
    };
    assert_eq!(d.phase(0), Some(failed));
    d.next_action();
    assert_eq!(d.phase(1), Some(Phase::Completing));
    d.completion_finished(1, Ok(CompletionResult { text: "B".to_string(), usage: usage() }));
    d.next_action();
    d.mutation_finished(1, Ok(()));
    assert_eq!(d.phase(1), Some(Phase::Succeeded { text: "B".to_string() }));
    assert_eq!(d.phase(0).clone(), d.phase(0));
}

#[test]
fn tasks_made_by_hand_are_dispatched_like_collected_ones() {
    let tasks = vec![
        RewriteTask { element: 7, source_text: "seven".to_string() },
        RewriteTask { element: 3, source_text: "three".to_string() },
    ];
    let mut d = Dispatcher::new(new_template("p".to_string(), None), tasks, 8);
    assert!(matches!(d.next_action(), Action::Complete { task: 0, .. }));
    assert!(matches!(d.next_action(), Action::Complete { task: 1, .. }));
    assert!(d.completion_finished(1, Ok(CompletionResult { text: "III".to_string(), usage: usage() })));
    assert_eq!(d.next_action(), Action::Mutate { task: 1, element: 3, text: "III".to_string() });
}
