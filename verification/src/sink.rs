//! Where the failures of a run are kept for the operator.

use crate::outcome::{TaskError, TaskErrorView};
use vstd::prelude::*;

verus! {

/// One failure: the source text of the task that failed, and why it did.
#[derive(Debug, PartialEq, Eq)]
pub struct ErrorReport {
    pub context: String,
    pub error: TaskError,
}

/// The mathematical value of an [`ErrorReport`].
pub struct ErrorReportView {
    pub context: Seq<char>,
    pub error: TaskErrorView,
}

impl View for ErrorReport {
    type V = ErrorReportView;

    open spec fn view(&self) -> ErrorReportView {
        ErrorReportView { context: self.context@, error: self.error@ }
    }
}

impl DeepView for ErrorReport {
    type V = ErrorReportView;

    open spec fn deep_view(&self) -> ErrorReportView {
        self@
    }
}

/// An append-only record of failures. Recording never fails, and nothing that
/// was recorded is changed or removed.
pub struct ErrorSink {
    reports: Vec<ErrorReport>,
}

impl View for ErrorSink {
    type V = Seq<ErrorReportView>;

    closed spec fn view(&self) -> Seq<ErrorReportView> {
        self.reports.deep_view()
    }
}

impl ErrorSink {
    /// A sink that holds nothing yet.
    pub fn new() -> (sink: Self)
        ensures
            sink@ == Seq::<ErrorReportView>::empty(),
    {
        let sink = ErrorSink { reports: Vec::new() };
        assert(sink@ =~= Seq::<ErrorReportView>::empty());
        sink
    }

    /// Records one failure behind those already held.
    pub fn record(&mut self, context: String, error: TaskError)
        ensures
            final(self)@ == old(self)@.push(ErrorReportView { context: context@, error: error@ }),
    {
        self.reports.push(ErrorReport { context, error });
        assert(self@ =~= old(self)@.push(ErrorReportView { context: context@, error: error@ }));
    }

    /// How many failures are held.
    pub fn len(&self) -> (count: usize)
        ensures
            count == self@.len(),
    {
        self.reports.len()
    }

    /// The failures held, oldest first.
    pub fn reports(&self) -> (reports: &Vec<ErrorReport>)
        ensures
            reports.deep_view() == self@,
    {
        &self.reports
    }
}

} // verus!
