//! The update pass as a machine: each step takes what the caller did last
//! and says what the caller is to do next. The caller downloads and runs
//! scripts; everything that is decided is decided here.

use crate::db::tables::{row_of, FilterRowView, RSSActionsTx, StoreError, TablesView};
use crate::db::transaction::{keyed, listed};
use crate::find::{count_where, first_where};
use crate::models::feed::{Feed, FeedView};
use crate::models::filter::{Filter, FilterView};
use crate::update::entry::{dates_ascend, feed_items, feed_outcome, read_feed, FeedFault};
use crate::update::matching::{FilterPlan, FilterPlanView};
use crate::update::plan::{
    distinct_aliases, outcome_view, outcomes_view, plan_pass, planned, FeedOutcome,
    FeedOutcomeView,
};
use crate::update::report::{FeedFailure, FailedFeedView, UpdateOutput, UpdateOutputView};
use crate::update::script::{
    call_of, ProcessOutput, ProcessOutputView, ScriptCall, ScriptCallView, ScriptResult,
    ScriptResultView,
};
use vstd::prelude::*;
use vstd::string::*;

verus! {

/// Where a pass stands.
#[derive(Clone, Copy, Debug, PartialEq, Eq, Structural)]
pub enum Stage {
    /// Not started.
    Fresh,
    /// Waiting for the downloads of the feeds.
    Downloading,
    /// Waiting for a script to end.
    Running,
    /// Over.
    Finished,
}

/// Why a pass ends without a report, or a step is refused.
#[derive(Clone, Copy, Debug, PartialEq, Eq, Structural)]
pub enum UpdateError {
    /// Not one feed could be downloaded and parsed.
    AllDownloadsFailed,
    /// A filter's watermark could not be stored: no row is the filter.
    NoSuchFilter,
    /// A filter's watermark could not be stored: more than one row is the
    /// filter.
    CorruptState,
    /// The event is not the one that the pass is waiting for. The pass is
    /// left as it was.
    UnexpectedEvent,
}

/// What became of one feed's download.
#[derive(Debug, PartialEq, Eq)]
pub enum Download {
    /// The bytes that the feed's URL gave.
    Fetched(Vec<u8>),
    /// The request failed.
    Failed { reason: String },
}

/// What a download holds.
pub enum DownloadView {
    Fetched(Seq<u8>),
    Failed { reason: Seq<char> },
}

/// What the caller did last.
#[derive(Debug, PartialEq, Eq)]
pub enum UpdateEvent {
    /// Nothing yet.
    Start,
    /// It downloaded the feeds: one download for each feed, in the order
    /// in which the feeds were handed out.
    Downloaded(Vec<Download>),
    /// It ran the script.
    ScriptFinished(ScriptResult),
}

/// What an event holds.
pub enum UpdateEventView {
    Start,
    Downloaded(Seq<DownloadView>),
    ScriptFinished(ScriptResultView),
}

/// What the caller is to do next.
#[derive(Debug, PartialEq, Eq)]
pub enum UpdateAction {
    /// Download each of these feeds, and come back with `Downloaded`.
    Download(Vec<Feed>),
    /// Run this script, wait for it, and come back with `ScriptFinished`.
    RunScript(ScriptCall),
    /// Nothing: the pass is over, and this is its report.
    Done(UpdateOutput),
}

/// What an action holds.
pub enum UpdateActionView {
    Download(Seq<FeedView>),
    RunScript(ScriptCallView),
    Done(UpdateOutputView),
}

/// The state of a pass between two steps.
pub struct UpdatePass {
    stage: Stage,
    feeds: Vec<Feed>,
    filters: Vec<Filter>,
    jobs: Vec<FilterPlan>,
    job: usize,
    entry: usize,
    outputs: Vec<ProcessOutput>,
    report: UpdateOutput,
}

/// What the state of a pass holds.
pub struct PassView {
    pub stage: Stage,
    /// While downloading: the feeds that are being downloaded.
    pub feeds: Seq<FeedView>,
    /// While downloading: the filters, in the order of the store's list.
    pub filters: Seq<FilterView>,
    /// While running: what each filter is to do.
    pub jobs: Seq<FilterPlanView>,
    /// While running: the job at hand.
    pub job: int,
    /// While running: which of the job's entries the script is running on.
    pub entry: int,
    /// While running: what the script left behind on the entries before.
    pub outputs: Seq<ProcessOutputView>,
    /// While running: the report so far.
    pub report: UpdateOutputView,
}

/// What a step makes of a pass and a store.
pub struct StepView {
    pub pass: PassView,
    pub store: TablesView,
    pub outcome: Result<UpdateActionView, UpdateError>,
}

impl View for Download {
    type V = DownloadView;

    open spec fn view(&self) -> DownloadView {
        match self {
            Download::Fetched(bytes) => DownloadView::Fetched(bytes@),
            Download::Failed { reason } => DownloadView::Failed { reason: reason@ },
        }
    }
}

impl DeepView for Download {
    type V = DownloadView;

    open spec fn deep_view(&self) -> DownloadView {
        self@
    }
}

impl View for UpdateEvent {
    type V = UpdateEventView;

    open spec fn view(&self) -> UpdateEventView {
        match self {
            UpdateEvent::Start => UpdateEventView::Start,
            UpdateEvent::Downloaded(downloads) => UpdateEventView::Downloaded(
                downloads.deep_view(),
            ),
            UpdateEvent::ScriptFinished(result) => UpdateEventView::ScriptFinished(result@),
        }
    }
}

impl View for UpdateAction {
    type V = UpdateActionView;

    open spec fn view(&self) -> UpdateActionView {
        match self {
            UpdateAction::Download(feeds) => UpdateActionView::Download(feeds.deep_view()),
            UpdateAction::RunScript(call) => UpdateActionView::RunScript(call@),
            UpdateAction::Done(report) => UpdateActionView::Done(report@),
        }
    }
}

impl View for UpdatePass {
    type V = PassView;

    closed spec fn view(&self) -> PassView {
        PassView {
            stage: self.stage,
            feeds: self.feeds.deep_view(),
            filters: self.filters.deep_view(),
            jobs: self.jobs.deep_view(),
            job: self.job as int,
            entry: self.entry as int,
            outputs: self.outputs.deep_view(),
            report: self.report@,
        }
    }
}

/// What the result of a step holds.
pub open spec fn result_view(r: Result<UpdateAction, UpdateError>) -> Result<
    UpdateActionView,
    UpdateError,
> {
    match r {
        Ok(action) => Ok(action@),
        Err(e) => Err(e),
    }
}

impl PassView {
    /// A pass at this stage that holds nothing.
    pub open spec fn blank(stage: Stage) -> PassView {
        PassView {
            stage,
            feeds: Seq::empty(),
            filters: Seq::empty(),
            jobs: Seq::empty(),
            job: 0,
            entry: 0,
            outputs: Seq::empty(),
            report: UpdateOutputView::zero(),
        }
    }

    /// The counts of the report leave room for the jobs that are not
    /// settled yet, and the position is within the jobs.
    pub open spec fn in_bounds(self) -> bool {
        &&& 0 <= self.job <= self.jobs.len()
        &&& 0 <= self.entry
        &&& self.outputs.len() == self.entry
        &&& self.report.successes + self.report.failures + (self.jobs.len() - self.job)
            <= usize::MAX
        &&& self.report.updates <= self.report.successes
    }

    /// What holds of a pass between two steps: before the start and after
    /// the end it holds nothing; while downloading, its feeds have
    /// distinct aliases; while running, a script is running on an entry
    /// of the job at hand.
    pub open spec fn wf(self) -> bool {
        match self.stage {
            Stage::Fresh => self == PassView::blank(Stage::Fresh),
            Stage::Finished => self == PassView::blank(Stage::Finished),
            Stage::Downloading => distinct_aliases(self.feeds),
            Stage::Running => {
                &&& self.in_bounds()
                &&& self.job < self.jobs.len()
                &&& self.entry < self.jobs[self.job].matches.len()
            },
        }
    }
}

/// What a download gives: the entries of the feed in ascending order of
/// publish date, or why there are none.
pub open spec fn downloaded(download: DownloadView) -> FeedOutcomeView {
    match download {
        DownloadView::Failed { reason } => Err(FailedFeedView::Download { reason }),
        DownloadView::Fetched(bytes) => match feed_outcome(feed_items(bytes)) {
            Ok(entries) => Ok(entries),
            Err(FeedFault::Parse) => Err(FailedFeedView::Parse),
            Err(FeedFault::Data { invalid }) => Err(FailedFeedView::Data { invalid }),
        },
    }
}

/// The feed was lost on the way: it could not be downloaded, or what came
/// is no feed.
pub open spec fn is_lost(outcome: FeedOutcomeView) -> bool {
    outcome matches Err(failure) && !(failure is Data)
}

/// Every feed was lost on the way.
pub open spec fn all_lost(outcomes: Seq<FeedOutcomeView>) -> bool {
    forall|k: int| 0 <= k < outcomes.len() ==> is_lost(#[trigger] outcomes[k])
}

/// The store once the watermark of the row that is this filter is set to
/// the filter's watermark: `NoSuchFilter` if no row is the filter,
/// `CorruptState` if more than one is.
pub open spec fn with_watermark(store: TablesView, filter: FilterView) -> Result<
    TablesView,
    UpdateError,
> {
    let key = row_of(filter);
    let count = count_where(store.filters, keyed(key));
    let at = first_where(store.filters, keyed(key));
    if count == 0 {
        Err(UpdateError::NoSuchFilter)
    } else if count > 1 {
        Err(UpdateError::CorruptState)
    } else {
        Ok(
            TablesView {
                filters: store.filters.update(
                    at,
                    FilterRowView { last_updated: filter.last_updated, ..store.filters[at] },
                ),
                ..store
            },
        )
    }
}

/// The pass once the job at hand has succeeded: the job is in the report
/// with the outputs of its script, it counts as a success, and as an
/// update if its watermark moved; the next job is at hand.
pub open spec fn job_done(pass: PassView) -> PassView {
    let job = pass.jobs[pass.job];
    PassView {
        job: pass.job + 1,
        entry: 0,
        outputs: Seq::empty(),
        report: UpdateOutputView {
            executed_filters: pass.report.executed_filters.push((job.filter, Ok(pass.outputs))),
            successes: (pass.report.successes + 1) as usize,
            updates: if job.was_updated {
                (pass.report.updates + 1) as usize
            } else {
                pass.report.updates
            },
            ..pass.report
        },
        ..pass
    }
}

/// The pass once the script has failed on an entry of the job at hand:
/// the job is in the report with the failed run and counts as a failure,
/// its other entries are left alone, and the next job is at hand.
pub open spec fn job_failed(pass: PassView, result: ScriptResultView) -> PassView {
    let job = pass.jobs[pass.job];
    PassView {
        job: pass.job + 1,
        entry: 0,
        outputs: Seq::empty(),
        report: UpdateOutputView {
            executed_filters: pass.report.executed_filters.push((job.filter, Err(result))),
            failures: (pass.report.failures + 1) as usize,
            ..pass.report
        },
        ..pass
    }
}

/// The pass once the script has succeeded on the entry at hand: its
/// output is kept, and the job's next entry is at hand.
pub open spec fn entry_done(pass: PassView, output: ProcessOutputView) -> PassView {
    PassView { entry: pass.entry + 1, outputs: pass.outputs.push(output), ..pass }
}

/// Goes on until a script has to run or the pass is over. A job with an
/// entry left asks for its script to run on that entry. A job without has
/// succeeded: its filter's watermark is stored, and the next job is looked
/// at; if the store refuses, the pass ends with the store's error. After
/// the last job the pass ends with its report.
pub open spec fn settled(pass: PassView, store: TablesView) -> StepView
    decreases pass.jobs.len() - pass.job,
{
    if pass.job < 0 || pass.job >= pass.jobs.len() {
        StepView {
            pass: PassView::blank(Stage::Finished),
            store,
            outcome: Ok(UpdateActionView::Done(pass.report)),
        }
    } else {
        let job = pass.jobs[pass.job];
        if 0 <= pass.entry < job.matches.len() {
            StepView {
                pass,
                store,
                outcome: Ok(
                    UpdateActionView::RunScript(call_of(job.filter, job.matches[pass.entry])),
                ),
            }
        } else {
            match with_watermark(store, job.updated) {
                Err(e) => StepView {
                    pass: PassView::blank(Stage::Finished),
                    store,
                    outcome: Err(e),
                },
                Ok(next) => settled(job_done(pass), next),
            }
        }
    }
}

/// The first step: without filters the pass is over at once, with a
/// report of zeros; else the feeds are to be downloaded.
pub open spec fn begun(store: TablesView) -> StepView {
    let filters = listed(store.filters);
    if filters.len() == 0 {
        StepView {
            pass: PassView::blank(Stage::Finished),
            store,
            outcome: Ok(UpdateActionView::Done(UpdateOutputView::zero())),
        }
    } else {
        StepView {
            pass: PassView {
                feeds: store.feeds,
                filters,
                ..PassView::blank(Stage::Downloading)
            },
            store,
            outcome: Ok(UpdateActionView::Download(store.feeds)),
        }
    }
}

/// The pass that starts running on a plan.
pub open spec fn running(
    lines: Seq<(FeedView, Result<(), FailedFeedView>)>,
    failures: usize,
    jobs: Seq<FilterPlanView>,
) -> PassView {
    PassView {
        jobs,
        report: UpdateOutputView {
            executed_feeds: lines,
            failures,
            ..UpdateOutputView::zero()
        },
        ..PassView::blank(Stage::Running)
    }
}

/// The step after the downloads, where `outcomes` holds what each gave:
/// if every feed was lost, the pass ends with `AllDownloadsFailed`; else
/// the pass is planned and goes on until a script has to run or it is
/// over.
pub open spec fn digested(pass: PassView, store: TablesView, outcomes: Seq<FeedOutcomeView>)
    -> StepView {
    if all_lost(outcomes) {
        StepView {
            pass: PassView::blank(Stage::Finished),
            store,
            outcome: Err(UpdateError::AllDownloadsFailed),
        }
    } else {
        let plan = planned(pass.feeds, pass.filters, outcomes);
        settled(running(plan.lines, plan.failures as usize, plan.jobs), store)
    }
}

/// The step after a script has ended: on success the job goes on with its
/// next entry, on failure the job has failed; then the pass goes on until
/// a script has to run or it is over.
pub open spec fn recorded(pass: PassView, store: TablesView, result: ScriptResultView)
    -> StepView {
    if result.succeeded() {
        settled(entry_done(pass, result->Exited_0), store)
    } else {
        settled(job_failed(pass, result), store)
    }
}

/// One step of a pass: what becomes of the pass and of the store, and what
/// the caller is to do next. An event that the pass is not waiting for
/// changes nothing.
pub open spec fn update_step(pass: PassView, store: TablesView, event: UpdateEventView)
    -> StepView {
    match (pass.stage, event) {
        (Stage::Fresh, UpdateEventView::Start) => begun(store),
        (Stage::Downloading, UpdateEventView::Downloaded(downloads)) => {
            if downloads.len() == pass.feeds.len() {
                digested(
                    pass,
                    store,
                    downloads.map_values(|download: DownloadView| downloaded(download)),
                )
            } else {
                StepView { pass, store, outcome: Err(UpdateError::UnexpectedEvent) }
            }
        },
        (Stage::Running, UpdateEventView::ScriptFinished(result)) => recorded(pass, store, result),
        _ => StepView { pass, store, outcome: Err(UpdateError::UnexpectedEvent) },
    }
}

impl UpdateError {
    /// The error in words.
    pub open spec fn text(self) -> Seq<char> {
        match self {
            UpdateError::AllDownloadsFailed =>
                "All RSS feed downloads failed. Is the network down?"@,
            UpdateError::NoSuchFilter =>
                "No filter was found to update that matches the filter's feed, keywords and script."@,
            UpdateError::CorruptState =>
                "More than one filter was updated when updating a filter."@,
            UpdateError::UnexpectedEvent => "The update pass is not waiting for this event."@,
        }
    }

    /// The error in words.
    pub fn message(&self) -> (r: String)
        ensures
            r@ == self.text(),
    {
        match self {
            UpdateError::AllDownloadsFailed => String::from_str(
                "All RSS feed downloads failed. Is the network down?",
            ),
            UpdateError::NoSuchFilter => String::from_str(
                "No filter was found to update that matches the filter's feed, keywords and script.",
            ),
            UpdateError::CorruptState => String::from_str(
                "More than one filter was updated when updating a filter.",
            ),
            UpdateError::UnexpectedEvent => String::from_str(
                "The update pass is not waiting for this event.",
            ),
        }
    }
}

impl UpdatePass {
    /// A pass that has not started.
    pub fn new() -> (pass: UpdatePass)
        ensures
            pass@ == PassView::blank(Stage::Fresh),
            pass@.wf(),
    {
        UpdatePass::blank(Stage::Fresh)
    }

    /// Where the pass stands.
    pub fn stage(&self) -> (stage: Stage)
        ensures
            stage == self@.stage,
    {
        self.stage
    }

    /// A pass at this stage that holds nothing.
    fn blank(stage: Stage) -> (pass: UpdatePass)
        ensures
            pass@ == PassView::blank(stage),
    {
        let pass = UpdatePass {
            stage,
            feeds: Vec::new(),
            filters: Vec::new(),
            jobs: Vec::new(),
            job: 0,
            entry: 0,
            outputs: Vec::new(),
            report: UpdateOutput::zero(),
        };
        assert(pass@.feeds =~= Seq::empty());
        assert(pass@.filters =~= Seq::empty());
        assert(pass@.jobs =~= Seq::empty());
        assert(pass@.outputs =~= Seq::empty());
        pass
    }
}

/// What the downloads give, one outcome for each.
fn digest(downloads: &Vec<Download>) -> (outcomes: Vec<FeedOutcome>)
    ensures
        outcomes.len() == downloads.len(),
        outcomes_view(outcomes@) == downloads.deep_view().map_values(
            |download: DownloadView| downloaded(download),
        ),
        forall|k: int|
            0 <= k < outcomes.len() ==> ((#[trigger] outcomes[k]) matches Ok(entries)
                ==> dates_ascend(entries.deep_view())),
{
    let mut outcomes: Vec<FeedOutcome> = Vec::new();
    let mut k: usize = 0;
    while k < downloads.len()
        invariant
            k <= downloads.len(),
            outcomes.len() == k,
            forall|i: int|
                0 <= i < k ==> outcome_view(#[trigger] outcomes[i]) == downloaded(downloads[i]@),
            forall|i: int|
                0 <= i < k ==> ((#[trigger] outcomes[i]) matches Ok(entries) ==> dates_ascend(
                    entries.deep_view(),
                )),
        decreases downloads.len() - k,
    {
        let outcome: FeedOutcome = match &downloads[k] {
            Download::Failed { reason } => Err(FeedFailure::Download { reason: reason.clone() }),
            Download::Fetched(bytes) => match read_feed(bytes.as_slice()) {
                Ok(entries) => Ok(entries),
                Err(FeedFault::Parse) => Err(FeedFailure::Parse),
                Err(FeedFault::Data { invalid }) => Err(FeedFailure::Data { invalid }),
            },
        };
        outcomes.push(outcome);
        k += 1;
    }
    assert(outcomes_view(outcomes@) =~= downloads.deep_view().map_values(
        |download: DownloadView| downloaded(download),
    ));
    outcomes
}

/// Whether every feed was lost on the way.
fn lost_all(outcomes: &Vec<FeedOutcome>) -> (r: bool)
    ensures
        r == all_lost(outcomes_view(outcomes@)),
{
    let mut k: usize = 0;
    while k < outcomes.len()
        invariant
            k <= outcomes.len(),
            forall|i: int| 0 <= i < k ==> is_lost(#[trigger] outcomes_view(outcomes@)[i]),
        decreases outcomes.len() - k,
    {
        let lost = match &outcomes[k] {
            Ok(_) => false,
            Err(FeedFailure::Data { .. }) => false,
            Err(_) => true,
        };
        assert(lost == is_lost(outcomes_view(outcomes@)[k as int]));
        if !lost {
            return false;
        }
        k += 1;
    }
    true
}

/// The first step of a pass.
fn begin(tx: &RSSActionsTx, pass: &mut UpdatePass) -> (r: Result<UpdateAction, UpdateError>)
    requires
        tx@.wf(),
        old(pass)@ == PassView::blank(Stage::Fresh),
    ensures
        final(pass)@.wf(),
        final(pass)@ == begun(tx@).pass,
        result_view(r) == begun(tx@).outcome,
{
    let filters = tx.fetch_filters();
    if filters.len() == 0 {
        *pass = UpdatePass::blank(Stage::Finished);
        return Ok(UpdateAction::Done(UpdateOutput::zero()));
    }
    let feeds = tx.fetch_feeds();
    let mut next = UpdatePass::blank(Stage::Downloading);
    next.feeds = crate::db::tables::clone_feeds(&feeds);
    next.filters = filters;
    *pass = next;
    Ok(UpdateAction::Download(feeds))
}

/// Goes on until a script has to run or the pass is over.
fn settle(tx: &mut RSSActionsTx, pass: &mut UpdatePass) -> (r: Result<UpdateAction, UpdateError>)
    requires
        old(tx)@.wf(),
        old(pass)@.stage == Stage::Running,
        old(pass)@.in_bounds(),
        old(pass)@.job < old(pass)@.jobs.len() ==> old(pass)@.entry <= old(pass)@.jobs[old(
            pass,
        )@.job].matches.len(),
    ensures
        final(tx)@.wf(),
        final(pass)@.wf(),
        final(pass)@ == settled(old(pass)@, old(tx)@).pass,
        final(tx)@ == settled(old(pass)@, old(tx)@).store,
        result_view(r) == settled(old(pass)@, old(tx)@).outcome,
{
    let ghost goal = settled(pass@, tx@);
    loop
        invariant
            tx@.wf(),
            pass@.stage == Stage::Running,
            pass@.in_bounds(),
            pass@.job < pass@.jobs.len() ==> pass@.entry <= pass@.jobs[pass@.job].matches.len(),
            settled(pass@, tx@) == goal,
            goal == settled(old(pass)@, old(tx)@),
        decreases pass.jobs.len() - pass.job,
    {
        if pass.job >= pass.jobs.len() {
            let mut report = UpdateOutput::zero();
            core::mem::swap(&mut pass.report, &mut report);
            *pass = UpdatePass::blank(Stage::Finished);
            return Ok(UpdateAction::Done(report));
        }
        assert(pass@.jobs[pass@.job] == pass.jobs[pass.job as int]@);
        if pass.entry < pass.jobs[pass.job].matches.len() {
            let job = &pass.jobs[pass.job];
            let call = ScriptCall::new(&job.filter, &job.matches[pass.entry]);
            return Ok(UpdateAction::RunScript(call));
        }
        let ghost before = pass@;
        let ghost store = tx@;
        match tx.update_filter(&pass.jobs[pass.job].updated) {
            Err(e) => {
                *pass = UpdatePass::blank(Stage::Finished);
                return Err(
                    match e {
                        StoreError::NoSuchFilter => UpdateError::NoSuchFilter,
                        _ => UpdateError::CorruptState,
                    },
                );
            },
            Ok(()) => {
                assert(with_watermark(store, before.jobs[before.job].updated) == Ok::<
                    TablesView,
                    UpdateError,
                >(tx@));
                let mut outputs: Vec<ProcessOutput> = Vec::new();
                core::mem::swap(&mut pass.outputs, &mut outputs);
                let filter = pass.jobs[pass.job].filter.clone();
                let was_updated = pass.jobs[pass.job].was_updated;
                let ghost lines = pass.report@.executed_filters;
                pass.report.executed_filters.push((filter, Ok(outputs)));
                assert(pass.report@.executed_filters =~= lines.push(
                    (before.jobs[before.job].filter, Ok(before.outputs)),
                ));
                pass.report.successes = pass.report.successes + 1;
                if was_updated {
                    pass.report.updates = pass.report.updates + 1;
                }
                pass.job = pass.job + 1;
                pass.entry = 0;
                assert(pass@.outputs =~= Seq::empty());
                assert(pass@ == job_done(before));
            },
        }
    }
}

/// The step after the downloads.
fn plan(tx: &mut RSSActionsTx, pass: &mut UpdatePass, downloads: Vec<Download>) -> (r: Result<
    UpdateAction,
    UpdateError,
>)
    requires
        old(tx)@.wf(),
        old(pass)@.wf(),
        old(pass)@.stage == Stage::Downloading,
        downloads.len() == old(pass)@.feeds.len(),
    ensures
        final(tx)@.wf(),
        final(pass)@.wf(),
        ({
            let outcomes = downloads.deep_view().map_values(
                |download: DownloadView| downloaded(download),
            );
            let next = digested(old(pass)@, old(tx)@, outcomes);
            final(pass)@ == next.pass && final(tx)@ == next.store && result_view(r)
                == next.outcome
        }),
{
    let outcomes = digest(&downloads);
    if lost_all(&outcomes) {
        *pass = UpdatePass::blank(Stage::Finished);
        return Err(UpdateError::AllDownloadsFailed);
    }
    let made = plan_pass(&pass.feeds, &pass.filters, &outcomes);
    let ghost lines = made@.lines;
    let ghost jobs = made@.jobs;
    let mut next = UpdatePass::blank(Stage::Running);
    next.jobs = made.jobs;
    next.report.executed_feeds = made.lines;
    next.report.failures = made.failures;
    assert(next.report@.executed_filters =~= Seq::empty());
    assert(next@ == running(lines, made.failures, jobs));
    *pass = next;
    settle(tx, pass)
}

/// The step after a script has ended.
fn record(tx: &mut RSSActionsTx, pass: &mut UpdatePass, result: ScriptResult) -> (r: Result<
    UpdateAction,
    UpdateError,
>)
    requires
        old(tx)@.wf(),
        old(pass)@.wf(),
        old(pass)@.stage == Stage::Running,
    ensures
        final(tx)@.wf(),
        final(pass)@.wf(),
        final(pass)@ == recorded(old(pass)@, old(tx)@, result@).pass,
        final(tx)@ == recorded(old(pass)@, old(tx)@, result@).store,
        result_view(r) == recorded(old(pass)@, old(tx)@, result@).outcome,
{
    let ghost before = pass@;
    assert(before.jobs.len() == pass.jobs.len());
    assert(before.jobs[before.job] == pass.jobs[pass.job as int]@);
    assert(before.jobs[before.job].matches.len() == pass.jobs[pass.job as int].matches.len());
    if result.success() {
        match result {
            ScriptResult::Exited(output) => {
                pass.outputs.push(output);
                pass.entry = pass.entry + 1;
                assert(pass@.outputs =~= before.outputs.push(output@));
                assert(pass@ == entry_done(before, output@));
            },
            ScriptResult::NotStarted { .. } => {},
        }
    } else {
        let filter = pass.jobs[pass.job].filter.clone();
        let ghost lines = pass.report@.executed_filters;
        pass.report.executed_filters.push((filter, Err(result)));
        assert(pass.report@.executed_filters =~= lines.push(
            (before.jobs[before.job].filter, Err(result@)),
        ));
        pass.report.failures = pass.report.failures + 1;
        pass.job = pass.job + 1;
        pass.entry = 0;
        pass.outputs = Vec::new();
        assert(pass@.outputs =~= Seq::empty());
        assert(pass@ == job_failed(before, result@));
    }
    settle(tx, pass)
}

/// Makes one step of an update pass: takes what the caller did last, and
/// says what it is to do next. A pass starts with a new `UpdatePass` and
/// the event `Start`, and is over with the action `Done` or an error other
/// than `UnexpectedEvent`. The watermarks of the filters whose actions
/// all succeeded are stored in the transaction as the pass goes on.
pub fn update(tx: &mut RSSActionsTx, pass: &mut UpdatePass, event: UpdateEvent) -> (r: Result<
    UpdateAction,
    UpdateError,
>)
    requires
        old(tx)@.wf(),
        old(pass)@.wf(),
    ensures
        final(tx)@.wf(),
        final(pass)@.wf(),
        final(pass)@ == update_step(old(pass)@, old(tx)@, event@).pass,
        final(tx)@ == update_step(old(pass)@, old(tx)@, event@).store,
        result_view(r) == update_step(old(pass)@, old(tx)@, event@).outcome,
{
    match event {
        UpdateEvent::Start => match pass.stage {
            Stage::Fresh => begin(tx, pass),
            _ => Err(UpdateError::UnexpectedEvent),
        },
        UpdateEvent::Downloaded(downloads) => match pass.stage {
            Stage::Downloading => {
                if downloads.len() == pass.feeds.len() {
                    plan(tx, pass, downloads)
                } else {
                    Err(UpdateError::UnexpectedEvent)
                }
            },
            _ => Err(UpdateError::UnexpectedEvent),
        },
        UpdateEvent::ScriptFinished(result) => match pass.stage {
            Stage::Running => record(tx, pass, result),
            _ => Err(UpdateError::UnexpectedEvent),
        },
    }
}

} // verus!
