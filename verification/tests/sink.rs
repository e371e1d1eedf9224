use page_rewriter::completion::CompletionError;
use page_rewriter::outcome::{MutationError, TaskError};
use page_rewriter::sink::{ErrorReport, ErrorSink};

#[test]
fn a_new_sink_is_empty() {
    let sink = ErrorSink::new();
    assert_eq!(sink.len(), 0);
    assert!(sink.reports().is_empty());
}

#[test]
fn reports_are_kept_in_the_order_they_came() {
    let mut sink = ErrorSink::new();
    let first = TaskError::Completion(CompletionError::ServiceError {
        status: 500,
        body: "oops".to_string(),
    });
    let second = TaskError::Mutation(MutationError { detail: "gone".to_string() });
    sink.record("first text".to_string(), first.clone());
    assert_eq!(sink.len(), 1);
    sink.record("second text".to_string(), second.clone());
    assert_eq!(sink.len(), 2);
    assert_eq!(
        sink.reports(),
        &vec![
            ErrorReport { context: "first text".to_string(), error: first },
            ErrorReport { context: "second text".to_string(), error: second },
        ]
    );
}
