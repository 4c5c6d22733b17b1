//! What an update pass reports: how each feed and each filter fared, and
//! three counts.

use crate::models::feed::{Feed, FeedView};
use crate::models::filter::{Filter, FilterView};
use crate::update::script::{ProcessOutput, ProcessOutputView, ScriptResult, ScriptResultView};
use vstd::prelude::*;

verus! {

/// Why none of a feed's entries were acted on.
#[derive(Debug, PartialEq, Eq)]
pub enum FeedFailure {
    /// The feed could not be downloaded.
    Download { reason: String },
    /// What was downloaded is no feed.
    Parse,
    /// This many items of the feed are no entries.
    Data { invalid: usize },
}

/// What a feed failure holds.
pub enum FailedFeedView {
    Download { reason: Seq<char> },
    Parse,
    Data { invalid: usize },
}

/// The report of an update pass.
#[derive(Debug, PartialEq, Eq)]
pub struct UpdateOutput {
    /// Each feed that was downloaded or tried, in the order of the feeds
    /// table, with the reason if its filters were skipped.
    pub executed_feeds: Vec<(Feed, Result<(), FeedFailure>)>,
    /// Each filter that was run, with the output of each run of its
    /// script, or with the run that failed.
    pub executed_filters: Vec<(Filter, Result<Vec<ProcessOutput>, ScriptResult>)>,
    /// The filters whose actions all succeeded.
    pub successes: usize,
    /// The filters that were skipped with their feed or whose action
    /// failed.
    pub failures: usize,
    /// The filters whose watermark moved.
    pub updates: usize,
}

/// What a report holds.
pub struct UpdateOutputView {
    pub executed_feeds: Seq<(FeedView, Result<(), FailedFeedView>)>,
    pub executed_filters: Seq<(FilterView, Result<Seq<ProcessOutputView>, ScriptResultView>)>,
    pub successes: usize,
    pub failures: usize,
    pub updates: usize,
}

impl View for FeedFailure {
    type V = FailedFeedView;

    open spec fn view(&self) -> FailedFeedView {
        match self {
            FeedFailure::Download { reason } => FailedFeedView::Download { reason: reason@ },
            FeedFailure::Parse => FailedFeedView::Parse,
            FeedFailure::Data { invalid } => FailedFeedView::Data { invalid: *invalid },
        }
    }
}

/// What a feed's line of the report holds.
pub open spec fn feed_line(line: (Feed, Result<(), FeedFailure>)) -> (
    FeedView,
    Result<(), FailedFeedView>,
) {
    (
        line.0@,
        match line.1 {
            Ok(()) => Ok(()),
            Err(failure) => Err(failure@),
        },
    )
}

/// What a filter's line of the report holds.
pub open spec fn filter_line(line: (Filter, Result<Vec<ProcessOutput>, ScriptResult>)) -> (
    FilterView,
    Result<Seq<ProcessOutputView>, ScriptResultView>,
) {
    (
        line.0@,
        match line.1 {
            Ok(outputs) => Ok(outputs.deep_view()),
            Err(result) => Err(result@),
        },
    )
}

impl View for UpdateOutput {
    type V = UpdateOutputView;

    open spec fn view(&self) -> UpdateOutputView {
        UpdateOutputView {
            executed_feeds: self.executed_feeds@.map_values(
                |line: (Feed, Result<(), FeedFailure>)| feed_line(line),
            ),
            executed_filters: self.executed_filters@.map_values(
                |line: (Filter, Result<Vec<ProcessOutput>, ScriptResult>)| filter_line(line),
            ),
            successes: self.successes,
            failures: self.failures,
            updates: self.updates,
        }
    }
}

impl UpdateOutputView {
    /// The report of a pass that had nothing to do.
    pub open spec fn zero() -> UpdateOutputView {
        UpdateOutputView {
            executed_feeds: Seq::empty(),
            executed_filters: Seq::empty(),
            successes: 0,
            failures: 0,
            updates: 0,
        }
    }
}

impl UpdateOutput {
    /// The report of a pass that had nothing to do.
    pub fn zero() -> (r: UpdateOutput)
        ensures
            r@ == UpdateOutputView::zero(),
    {
        let r = UpdateOutput {
            executed_feeds: Vec::new(),
            executed_filters: Vec::new(),
            successes: 0,
            failures: 0,
            updates: 0,
        };
        assert(r@.executed_feeds =~= Seq::empty());
        assert(r@.executed_filters =~= Seq::empty());
        r
    }
}

} // verus!
