//! What the commands put out, and how it reads on a console.

use crate::models::feed::{Feed, FeedView};
use crate::models::filter::{Filter, FilterView};
use crate::text::{after_last, decimal, decimal_text, join, join_strings, tail_after};
use crate::time::{rfc2822_text, Timestamp};
use crate::update::report::{feed_line, filter_line, FeedFailure, FailedFeedView, UpdateOutput};
use crate::update::script::{ProcessOutputView, ScriptResultView};
use vstd::prelude::*;
use vstd::string::*;

verus! {

/// The feeds, in the order in which they were added.
#[derive(Debug, PartialEq, Eq)]
pub struct ListFeedsOutput {
    pub feeds: Vec<Feed>,
}

/// The filters, latest watermark first.
#[derive(Debug, PartialEq, Eq)]
pub struct ListFiltersOutput {
    pub filters: Vec<Filter>,
}

/// The feed that was added.
#[derive(Debug, PartialEq, Eq)]
pub struct AddFeedOutput(pub Feed);

/// The filter that was added.
#[derive(Debug, PartialEq, Eq)]
pub struct AddFilterOutput(pub Filter);

/// The alias and the keywords by which a filter was deleted.
#[derive(Debug, PartialEq, Eq)]
pub struct DeleteFilterOutput(pub String, pub Vec<String>);

/// The alias of the feed that was deleted.
#[derive(Debug, PartialEq, Eq)]
pub struct DeleteFeedOutput(pub String);

/// What is put out, as lines for a console.
pub trait ConsoleOutput {
    /// The lines.
    spec fn lines(&self) -> Seq<Seq<char>>;

    /// The lines.
    fn output(&self) -> (r: Vec<String>)
        ensures
            r.deep_view() == self.lines(),
    ;
}

/// The line that lists a feed.
pub open spec fn feed_text(feed: FeedView) -> Seq<char> {
    feed.alias + "\t"@ + feed.url
}

/// A watermark for a console: the instant in the feed date format, in
/// UTC, where the format can write it.
pub open spec fn watermark_text(last_updated: Option<Timestamp>) -> Seq<char> {
    match last_updated {
        None => "Never updated"@,
        Some(instant) => if instant.has_text() && rfc2822_text(instant.secs, instant.nanos)
            is Some {
            rfc2822_text(instant.secs, instant.nanos)->0
        } else {
            "Out of range"@
        },
    }
}

/// The line that lists a filter: its feed, its keywords, the file name of
/// its script and its watermark.
pub open spec fn filter_text(filter: FilterView) -> Seq<char> {
    filter.alias + "\t"@ + join(filter.keywords, ", "@) + "\t"@ + after_last(
        filter.script_path,
        '/',
    ) + "\t"@ + watermark_text(filter.last_updated)
}

/// A watermark for a console.
pub fn watermark_message(last_updated: &Option<Timestamp>) -> (r: String)
    ensures
        r@ == watermark_text(*last_updated),
{
    match last_updated {
        None => watermark_words(false, None),
        Some(instant) => watermark_words(true, instant.to_rfc2822()),
    }
}

/// A watermark for a console, where `written` is the watermark in the
/// feed date format, if the format can write it: a filter that never ran
/// says so, and a watermark that cannot be written is out of range.
pub fn watermark_words(ran: bool, written: Option<String>) -> (r: String)
    ensures
        r@ == if !ran {
            "Never updated"@
        } else {
            match written {
                Some(text) => text@,
                None => "Out of range"@,
            }
        },
{
    if !ran {
        String::from_str("Never updated")
    } else {
        match written {
            Some(text) => text,
            None => String::from_str("Out of range"),
        }
    }
}

/// The line that lists a filter.
pub fn filter_message(filter: &Filter) -> (r: String)
    ensures
        r@ == filter_text(filter@),
{
    filter.alias.clone().concat("\t").concat(
        join_strings(&filter.keywords, ", ").as_str(),
    ).concat("\t").concat(tail_after(filter.script_path.as_str(), '/').as_str()).concat(
        "\t",
    ).concat(watermark_message(&filter.last_updated).as_str())
}

/// Why a feed's filters were skipped, in words.
pub open spec fn feed_failure_text(feed: FeedView, failure: FailedFeedView) -> Seq<char> {
    match failure {
        FailedFeedView::Download { reason } => "Failed to download "@ + feed.alias
            + " rss feed from url "@ + feed.url,
        FailedFeedView::Parse => "Could not parse "@ + feed.alias + " rss feed from url "@
            + feed.url,
        FailedFeedView::Data { invalid } => decimal_text(invalid as nat) + " entries in feed "@
            + feed.alias + " had data errors"@,
    }
}

/// That a filter's script failed, in words.
pub open spec fn filter_failure_text(filter: FilterView) -> Seq<char> {
    "Script failed for filter on feed "@ + filter.alias + ", keywords "@ + join(
        filter.keywords,
        ", "@,
    ) + ", script "@ + filter.script_path
}

/// The errors among the feeds' lines of a report, in words.
pub open spec fn feed_errors(lines: Seq<(FeedView, Result<(), FailedFeedView>)>) -> Seq<
    Seq<char>,
>
    decreases lines.len(),
{
    if lines.len() == 0 {
        Seq::empty()
    } else {
        let before = feed_errors(lines.drop_last());
        match lines.last().1 {
            Ok(()) => before,
            Err(failure) => before.push(feed_failure_text(lines.last().0, failure)),
        }
    }
}

/// The errors among the filters' lines of a report, in words.
pub open spec fn filter_errors(
    lines: Seq<(FilterView, Result<Seq<ProcessOutputView>, ScriptResultView>)>,
) -> Seq<Seq<char>>
    decreases lines.len(),
{
    if lines.len() == 0 {
        Seq::empty()
    } else {
        let before = filter_errors(lines.drop_last());
        match lines.last().1 {
            Ok(_) => before,
            Err(_) => before.push(filter_failure_text(lines.last().0)),
        }
    }
}

/// Why a feed's filters were skipped, in words.
pub fn feed_failure_message(feed: &Feed, failure: &FeedFailure) -> (r: String)
    ensures
        r@ == feed_failure_text(feed@, failure@),
{
    match failure {
        FeedFailure::Download { .. } => String::from_str("Failed to download ").concat(
            feed.alias.as_str(),
        ).concat(" rss feed from url ").concat(feed.url.as_str()),
        FeedFailure::Parse => String::from_str("Could not parse ").concat(
            feed.alias.as_str(),
        ).concat(" rss feed from url ").concat(feed.url.as_str()),
        FeedFailure::Data { invalid } => decimal(*invalid).concat(" entries in feed ").concat(
            feed.alias.as_str(),
        ).concat(" had data errors"),
    }
}

/// That a filter's script failed, in words.
pub fn filter_failure_message(filter: &Filter) -> (r: String)
    ensures
        r@ == filter_failure_text(filter@),
{
    String::from_str("Script failed for filter on feed ").concat(filter.alias.as_str()).concat(
        ", keywords ",
    ).concat(join_strings(&filter.keywords, ", ").as_str()).concat(", script ").concat(
        filter.script_path.as_str(),
    )
}

impl ConsoleOutput for ListFeedsOutput {
    open spec fn lines(&self) -> Seq<Seq<char>> {
        if self.feeds.len() == 0 {
            seq!["No feeds in database."@]
        } else {
            seq!["Current feeds:"@, ""@] + self.feeds.deep_view().map_values(
                |feed: FeedView| feed_text(feed),
            )
        }
    }

    fn output(&self) -> (r: Vec<String>) {
        let mut output: Vec<String> = Vec::new();
        if self.feeds.len() == 0 {
            output.push(String::from_str("No feeds in database."));
            assert(output.deep_view() =~= self.lines());
            return output;
        }
        output.push(String::from_str("Current feeds:"));
        output.push(String::from_str(""));
        let ghost all = self.feeds.deep_view().map_values(|feed: FeedView| feed_text(feed));
        let mut i: usize = 0;
        assert(output.deep_view() =~= seq!["Current feeds:"@, ""@] + all.take(0));
        while i < self.feeds.len()
            invariant
                i <= self.feeds.len(),
                all == self.feeds.deep_view().map_values(|feed: FeedView| feed_text(feed)),
                output.deep_view() == seq!["Current feeds:"@, ""@] + all.take(i as int),
            decreases self.feeds.len() - i,
        {
            let feed = &self.feeds[i];
            let ghost before = output.deep_view();
            let line = feed.alias.clone().concat("\t").concat(feed.url.as_str());
            output.push(line);
            assert(output.deep_view() =~= before.push(all[i as int]));
            assert(all.take(i + 1) =~= all.take(i as int).push(all[i as int]));
            assert(output.deep_view() =~= seq!["Current feeds:"@, ""@] + all.take(i + 1));
            i += 1;
        }
        assert(all.take(self.feeds.len() as int) =~= all);
        output
    }
}

impl ConsoleOutput for ListFiltersOutput {
    open spec fn lines(&self) -> Seq<Seq<char>> {
        if self.filters.len() == 0 {
            seq!["No filters in database."@]
        } else {
            seq!["Current filters:"@, ""@] + self.filters.deep_view().map_values(
                |filter: FilterView| filter_text(filter),
            )
        }
    }

    fn output(&self) -> (r: Vec<String>) {
        let mut output: Vec<String> = Vec::new();
        if self.filters.len() == 0 {
            output.push(String::from_str("No filters in database."));
            assert(output.deep_view() =~= self.lines());
            return output;
        }
        output.push(String::from_str("Current filters:"));
        output.push(String::from_str(""));
        let ghost all = self.filters.deep_view().map_values(
            |filter: FilterView| filter_text(filter),
        );
        let mut i: usize = 0;
        assert(output.deep_view() =~= seq!["Current filters:"@, ""@] + all.take(0));
        while i < self.filters.len()
            invariant
                i <= self.filters.len(),
                all == self.filters.deep_view().map_values(
                    |filter: FilterView| filter_text(filter),
                ),
                output.deep_view() == seq!["Current filters:"@, ""@] + all.take(i as int),
            decreases self.filters.len() - i,
        {
            let ghost before = output.deep_view();
            output.push(filter_message(&self.filters[i]));
            assert(output.deep_view() =~= before.push(all[i as int]));
            assert(all.take(i + 1) =~= all.take(i as int).push(all[i as int]));
            assert(output.deep_view() =~= seq!["Current filters:"@, ""@] + all.take(i + 1));
            i += 1;
        }
        assert(all.take(self.filters.len() as int) =~= all);
        output
    }
}

impl ConsoleOutput for AddFeedOutput {
    open spec fn lines(&self) -> Seq<Seq<char>> {
        seq!["Successfully added feed "@ + self.0.alias@]
    }

    fn output(&self) -> (r: Vec<String>) {
        let mut output: Vec<String> = Vec::new();
        output.push(String::from_str("Successfully added feed ").concat(self.0.alias.as_str()));
        assert(output.deep_view() =~= self.lines());
        output
    }
}

impl ConsoleOutput for AddFilterOutput {
    open spec fn lines(&self) -> Seq<Seq<char>> {
        seq![
            "Successfully added filter on feed "@ + self.0.alias@,
            "Keywords: "@ + join(self.0.keywords.deep_view(), ", "@),
        ]
    }

    fn output(&self) -> (r: Vec<String>) {
        let mut output: Vec<String> = Vec::new();
        output.push(
            String::from_str("Successfully added filter on feed ").concat(self.0.alias.as_str()),
        );
        output.push(
            String::from_str("Keywords: ").concat(join_strings(&self.0.keywords, ", ").as_str()),
        );
        assert(output.deep_view() =~= self.lines());
        output
    }
}

impl ConsoleOutput for DeleteFilterOutput {
    open spec fn lines(&self) -> Seq<Seq<char>> {
        seq![
            "Successfully deleted filter on feed "@ + self.0@,
            "Keywords: "@ + join(self.1.deep_view(), ", "@),
        ]
    }

    fn output(&self) -> (r: Vec<String>) {
        let mut output: Vec<String> = Vec::new();
        output.push(String::from_str("Successfully deleted filter on feed ").concat(self.0.as_str()));
        output.push(String::from_str("Keywords: ").concat(join_strings(&self.1, ", ").as_str()));
        assert(output.deep_view() =~= self.lines());
        output
    }
}

impl ConsoleOutput for DeleteFeedOutput {
    open spec fn lines(&self) -> Seq<Seq<char>> {
        seq!["Successfully deleted feed "@ + self.0@]
    }

    fn output(&self) -> (r: Vec<String>) {
        let mut output: Vec<String> = Vec::new();
        output.push(String::from_str("Successfully deleted feed ").concat(self.0.as_str()));
        assert(output.deep_view() =~= self.lines());
        output
    }
}

impl ConsoleOutput for UpdateOutput {
    open spec fn lines(&self) -> Seq<Seq<char>> {
        if self@.executed_filters.len() == 0 {
            seq!["No filters in the database to update."@]
        } else {
            seq![
                decimal_text(self.successes as nat) + " filters processed successfully."@,
                decimal_text(self.updates as nat) + " filters updated."@,
                decimal_text(self.failures as nat) + " filters failed to process."@,
            ] + feed_errors(self@.executed_feeds) + filter_errors(self@.executed_filters)
        }
    }

    fn output(&self) -> (r: Vec<String>) {
        let mut output: Vec<String> = Vec::new();
        if self.executed_filters.len() == 0 {
            output.push(String::from_str("No filters in the database to update."));
            assert(output.deep_view() =~= self.lines());
            return output;
        }
        output.push(decimal(self.successes).concat(" filters processed successfully."));
        output.push(decimal(self.updates).concat(" filters updated."));
        output.push(decimal(self.failures).concat(" filters failed to process."));
        let ghost head = output.deep_view();
        let ghost feeds = self@.executed_feeds;
        let ghost filters = self@.executed_filters;
        assert(head =~= seq![
            decimal_text(self.successes as nat) + " filters processed successfully."@,
            decimal_text(self.updates as nat) + " filters updated."@,
            decimal_text(self.failures as nat) + " filters failed to process."@,
        ]);
        let mut i: usize = 0;
        assert(feeds.take(0) =~= Seq::empty());
        assert(output.deep_view() =~= head + feed_errors(feeds.take(0)));
        while i < self.executed_feeds.len()
            invariant
                i <= self.executed_feeds.len(),
                feeds == self@.executed_feeds,
                output.deep_view() == head + feed_errors(feeds.take(i as int)),
            decreases self.executed_feeds.len() - i,
        {
            let line = &self.executed_feeds[i];
            let ghost before = output.deep_view();
            proof {
                assert(feeds.take(i + 1).drop_last() =~= feeds.take(i as int));
                assert(feeds.take(i + 1).last() == feed_line(*line));
            }
            match &line.1 {
                Ok(()) => {},
                Err(failure) => {
                    output.push(feed_failure_message(&line.0, failure));
                    assert(output.deep_view() =~= before.push(
                        feed_failure_text(line.0@, failure@),
                    ));
                    assert(output.deep_view() =~= head + feed_errors(feeds.take(i + 1)));
                },
            }
            i += 1;
        }
        assert(feeds.take(self.executed_feeds.len() as int) =~= feeds);
        let ghost middle = output.deep_view();
        let mut j: usize = 0;
        assert(filters.take(0) =~= Seq::empty());
        assert(output.deep_view() =~= middle + filter_errors(filters.take(0)));
        while j < self.executed_filters.len()
            invariant
                j <= self.executed_filters.len(),
                filters == self@.executed_filters,
                output.deep_view() == middle + filter_errors(filters.take(j as int)),
            decreases self.executed_filters.len() - j,
        {
            let line = &self.executed_filters[j];
            let ghost before = output.deep_view();
            proof {
                assert(filters.take(j + 1).drop_last() =~= filters.take(j as int));
                assert(filters.take(j + 1).last() == filter_line(*line));
            }
            match &line.1 {
                Ok(_) => {},
                Err(_) => {
                    output.push(filter_failure_message(&line.0));
                    assert(output.deep_view() =~= before.push(filter_failure_text(line.0@)));
                    assert(output.deep_view() =~= middle + filter_errors(filters.take(j + 1)));
                },
            }
            j += 1;
        }
        assert(filters.take(self.executed_filters.len() as int) =~= filters);
        assert(output.deep_view() =~= self.lines());
        output
    }
}

} // verus!
