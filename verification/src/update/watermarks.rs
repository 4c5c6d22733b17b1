//! Watermarks only move forward: what every step of a pass keeps true of
//! the store.

use crate::db::keywords::{decoded_keywords, encoded_keywords};
use crate::db::tables::{filter_of, row_of, same_key, FilterRowView, TablesView};
use crate::db::transaction::{keyed, listed, staler};
use crate::find::{first_where, lemma_count_one, lemma_filter_pairwise, lemma_first_where};
use crate::models::filter::FilterView;
use crate::order::{lemma_stable_sort_contains, lemma_stable_sort_pairwise};
use crate::time::Timestamp;
use crate::update::entry::{dates_ascend, lemma_by_date, feed_items, FeedEntryView};
use crate::update::laws::{job_has_feed, job_of_feed, lemma_plan_jobs};
use crate::update::matching::{advanced, law_watermark_moves_forward, FilterPlanView};
use crate::update::pass::{
    downloaded, entry_done, job_done, job_failed, running, settled, update_step, with_watermark,
    DownloadView, PassView, Stage, UpdateEventView,
};
use crate::update::plan::{distinct_aliases, on_feed, planned, plans_for, FeedOutcomeView};
use vstd::prelude::*;
use vstd::seq_lib::*;

verus! {

/// The second watermark is the first or a later one; a filter that never
/// ran has the earliest.
pub open spec fn moved_on(before: Option<Timestamp>, after: Option<Timestamp>) -> bool {
    match (before, after) {
        (None, _) => true,
        (Some(_), None) => false,
        (Some(old), Some(new)) => old.is_not_after(new),
    }
}

/// The second store holds the feeds and the filters of the first, row by
/// row, and no filter has an earlier watermark than it had.
pub open spec fn grown(before: TablesView, after: TablesView) -> bool {
    &&& after.feeds == before.feeds
    &&& after.filters.len() == before.filters.len()
    &&& forall|i: int|
        0 <= i < before.filters.len() ==> same_key(
            #[trigger] after.filters[i],
            before.filters[i],
        ) && moved_on(before.filters[i].last_updated, after.filters[i].last_updated)
}

/// Every row holds keywords in the encoding that its own keywords give:
/// this is so for every filter whose keywords do not hold the separator.
pub open spec fn canonical(store: TablesView) -> bool {
    forall|i: int|
        0 <= i < store.filters.len() ==> encoded_keywords(
            decoded_keywords((#[trigger] store.filters[i]).keywords),
        ) == store.filters[i].keywords
}

/// The job moves no watermark back: every row that its filter is stored
/// under has the watermark that the job stores, or an earlier one.
pub open spec fn job_fits(job: FilterPlanView, store: TablesView) -> bool {
    forall|i: int|
        0 <= i < store.filters.len() && same_key(#[trigger] store.filters[i], row_of(job.updated))
            ==> moved_on(store.filters[i].last_updated, job.updated.last_updated)
}

/// The predicate on two jobs that says that they are stored under
/// different rows.
pub open spec fn apart() -> spec_fn(FilterPlanView, FilterPlanView) -> bool {
    |a: FilterPlanView, b: FilterPlanView| !same_key(row_of(a.updated), row_of(b.updated))
}

/// No two jobs are stored under the same row.
pub open spec fn jobs_apart(jobs: Seq<FilterPlanView>) -> bool {
    forall|j: int, k: int|
        0 <= j < jobs.len() && 0 <= k < jobs.len() && j != k ==> #[trigger] apart()(
            jobs[j],
            jobs[k],
        )
}

/// The pass belongs to the store: while downloading, it holds the feeds
/// and the filters of the store; while running, its jobs are stored under
/// different rows, and none of the jobs to come moves a watermark back.
pub open spec fn coherent(pass: PassView, store: TablesView) -> bool {
    match pass.stage {
        Stage::Downloading => pass.feeds == store.feeds && pass.filters == listed(store.filters),
        Stage::Running => jobs_apart(pass.jobs) && forall|k: int|
            pass.job <= k < pass.jobs.len() ==> job_fits(#[trigger] pass.jobs[k], store),
        _ => true,
    }
}

/// A store that has grown from one that has grown from a third has grown
/// from the third.
pub proof fn lemma_grown_transitive(a: TablesView, b: TablesView, c: TablesView)
    requires
        grown(a, b),
        grown(b, c),
    ensures
        grown(a, c),
{
    assert forall|i: int| 0 <= i < a.filters.len() implies same_key(
        #[trigger] c.filters[i],
        a.filters[i],
    ) && moved_on(a.filters[i].last_updated, c.filters[i].last_updated) by {
        assert(same_key(b.filters[i], a.filters[i]));
        assert(same_key(c.filters[i], b.filters[i]));
    }
}

/// A store that has grown from a well-formed one is well formed, and
/// canonical if the other was.
pub proof fn lemma_grown_keeps(a: TablesView, b: TablesView)
    requires
        grown(a, b),
        a.wf(),
    ensures
        b.wf(),
        canonical(a) ==> canonical(b),
{
    assert forall|i: int| 0 <= i < b.filters.len() implies b.has_feed(
        (#[trigger] b.filters[i]).alias,
    ) by {
        assert(a.has_feed(a.filters[i].alias));
        let w = choose|w: int| 0 <= w < a.feeds.len() && (#[trigger] a.feeds[w]).alias
            == a.filters[i].alias;
        assert(b.feeds[w].alias == b.filters[i].alias);
    }
    assert forall|i: int, j: int| 0 <= i < j < b.filters.len() implies !same_key(
        #[trigger] b.filters[i],
        #[trigger] b.filters[j],
    ) by {
        assert(!same_key(a.filters[i], a.filters[j]));
    }
    if canonical(a) {
        assert forall|i: int| 0 <= i < b.filters.len() implies encoded_keywords(
            decoded_keywords((#[trigger] b.filters[i]).keywords),
        ) == b.filters[i].keywords by {
            assert(a.filters[i].keywords == b.filters[i].keywords);
        }
    }
}

/// Storing the watermark of a job that fits lets the store grow, and
/// every job that is stored under another row fits as it did.
pub proof fn lemma_stored_job(store: TablesView, job: FilterPlanView, next: TablesView)
    requires
        job_fits(job, store),
        with_watermark(store, job.updated) == Ok::<TablesView, crate::update::pass::UpdateError>(
            next,
        ),
    ensures
        grown(store, next),
        forall|other: FilterPlanView|
            apart()(job, other) && job_fits(other, store) ==> #[trigger] job_fits(other, next),
{
    let key = row_of(job.updated);
    let at = first_where(store.filters, keyed(key));
    lemma_count_one(store.filters, keyed(key));
    lemma_first_where(store.filters, keyed(key));
    assert(same_key(store.filters[at], key));
    assert forall|i: int| 0 <= i < store.filters.len() implies same_key(
        #[trigger] next.filters[i],
        store.filters[i],
    ) && moved_on(store.filters[i].last_updated, next.filters[i].last_updated) by {
        if i != at {
            let w = store.filters[i].last_updated;
            assert(moved_on(w, w));
        }
    }
    assert forall|other: FilterPlanView|
        apart()(job, other) && job_fits(other, store) implies #[trigger] job_fits(other, next) by {
        assert forall|i: int|
            0 <= i < next.filters.len() && same_key(
                #[trigger] next.filters[i],
                row_of(other.updated),
            ) implies moved_on(next.filters[i].last_updated, other.updated.last_updated) by {
            if i == at {
                assert(same_key(row_of(job.updated), row_of(other.updated)));
            } else {
                assert(same_key(store.filters[i], row_of(other.updated)));
            }
        }
    }
}

/// Going on until a script has to run or the pass is over moves no
/// watermark back, and leaves a pass that belongs to the store.
pub proof fn lemma_settled_grows(pass: PassView, store: TablesView)
    requires
        pass.stage == Stage::Running,
        0 <= pass.job,
        coherent(pass, store),
    ensures
        grown(store, settled(pass, store).store),
        coherent(settled(pass, store).pass, settled(pass, store).store),
    decreases pass.jobs.len() - pass.job,
{
    if pass.job < pass.jobs.len() {
        let job = pass.jobs[pass.job];
        if !(0 <= pass.entry < job.matches.len()) {
            match with_watermark(store, job.updated) {
                Err(_) => {},
                Ok(next) => {
                    let after = job_done(pass);
                    lemma_stored_job(store, job, next);
                    assert forall|k: int| after.job <= k < after.jobs.len() implies job_fits(
                        #[trigger] after.jobs[k],
                        next,
                    ) by {
                        assert(apart()(pass.jobs[pass.job], pass.jobs[k]));
                        assert(job_fits(pass.jobs[k], store));
                    }
                    lemma_settled_grows(after, next);
                    lemma_grown_transitive(store, next, settled(after, next).store);
                },
            }
        }
    }
}

/// A row that is canonical is the row that its own filter is stored
/// under.
pub proof fn lemma_canonical_row(row: FilterRowView)
    requires
        encoded_keywords(decoded_keywords(row.keywords)) == row.keywords,
    ensures
        row_of(filter_of(row)) == row,
{
}

/// The listed filters of a canonical, well-formed store are the filters
/// of its rows, and no two of them are stored under the same row.
pub proof fn lemma_listed(store: TablesView)
    requires
        store.wf(),
        canonical(store),
    ensures
        forall|p: int|
            0 <= p < listed(store.filters).len() ==> exists|i: int|
                0 <= i < store.filters.len() && (#[trigger] listed(store.filters)[p]) == filter_of(
                    store.filters[i],
                ),
        forall|p: int, q: int|
            0 <= p < listed(store.filters).len() && 0 <= q < listed(store.filters).len() && p != q
                ==> #[trigger] filters_apart()(listed(store.filters)[p], listed(store.filters)[q]),
{
    let rows = store.filters;
    let all = rows.map_values(|row: FilterRowView| filter_of(row));
    let sorted = listed(rows);
    assert forall|p: int| 0 <= p < sorted.len() implies exists|i: int|
        0 <= i < rows.len() && (#[trigger] sorted[p]) == filter_of(rows[i]) by {
        lemma_stable_sort_contains(all, staler(), sorted[p]);
        assert(sorted.contains(sorted[p]));
        let i = choose|i: int| 0 <= i < all.len() && all[i] == sorted[p];
        assert(sorted[p] == filter_of(rows[i]));
    }
    assert forall|i: int, j: int|
        0 <= i < all.len() && 0 <= j < all.len() && i != j implies #[trigger] filters_apart()(
        all[i],
        all[j],
    ) by {
        lemma_canonical_row(rows[i]);
        lemma_canonical_row(rows[j]);
        if i < j {
            assert(!same_key(rows[i], rows[j]));
        } else {
            assert(!same_key(rows[j], rows[i]));
        }
    }
    lemma_stable_sort_pairwise(all, staler(), filters_apart());
}

/// The predicate on two filters that says that they are stored under
/// different rows.
pub open spec fn filters_apart() -> spec_fn(FilterView, FilterView) -> bool {
    |a: FilterView, b: FilterView| !same_key(row_of(a), row_of(b))
}

/// A store stays canonical when a filter is added whose keywords do not
/// hold the separator.
pub proof fn law_added_filter_keeps_canonical(store: TablesView, filter: FilterView)
    requires
        canonical(store),
        crate::text::all_free_of(filter.keywords, crate::db::keywords::SEPARATOR),
    ensures
        canonical(TablesView { filters: store.filters.push(row_of(filter)), ..store }),
{
    let next = TablesView { filters: store.filters.push(row_of(filter)), ..store };
    crate::db::keywords::lemma_encoding_is_stable(filter.keywords);
    assert forall|i: int| 0 <= i < next.filters.len() implies encoded_keywords(
        decoded_keywords((#[trigger] next.filters[i]).keywords),
    ) == next.filters[i].keywords by {
        if i < store.filters.len() {
            assert(next.filters[i] == store.filters[i]);
        }
    }
}

/// A job is stored under the row that its filter is stored under: acting
/// changes nothing but the watermark.
pub proof fn lemma_job_key(filter: FilterView, entries: Seq<FeedEntryView>)
    ensures
        same_key(row_of(advanced(filter, entries)), row_of(filter)),
{
}

/// The jobs of a plan are stored under different rows, if the filters are
/// and the feeds have different aliases.
pub proof fn lemma_jobs_apart(
    feeds: Seq<crate::models::feed::FeedView>,
    filters: Seq<FilterView>,
    outcomes: Seq<FeedOutcomeView>,
)
    requires
        distinct_aliases(feeds),
        outcomes.len() == feeds.len(),
        forall|p: int, q: int|
            0 <= p < filters.len() && 0 <= q < filters.len() && p != q
                ==> #[trigger] filters_apart()(filters[p], filters[q]),
    ensures
        jobs_apart(planned(feeds, filters, outcomes).jobs),
    decreases feeds.len(),
{
    let plan = planned(feeds, filters, outcomes);
    if feeds.len() > 0 {
        let front = feeds.drop_last();
        let before = planned(front, filters, outcomes.drop_last());
        let feed = feeds.last();
        let mine = filters.filter(on_feed(feed.alias));
        assert forall|i: int, j: int| 0 <= i < j < front.len() implies (#[trigger] front[i]).alias
            != (#[trigger] front[j]).alias by {
            assert(feeds[i].alias != feeds[j].alias);
        }
        lemma_jobs_apart(front, filters, outcomes.drop_last());
        lemma_plan_jobs(front, filters, outcomes.drop_last());
        lemma_filter_pairwise(filters, on_feed(feed.alias), filters_apart());
        if outcomes.last() is Ok {
            let entries = outcomes.last()->Ok_0;
            let fresh = plans_for(mine, entries);
            assert forall|j: int, k: int|
                0 <= j < plan.jobs.len() && 0 <= k < plan.jobs.len() && j != k
                    implies #[trigger] apart()(plan.jobs[j], plan.jobs[k]) by {
                let n = before.jobs.len() as int;
                if j < n && k < n {
                    assert(apart()(before.jobs[j], before.jobs[k]));
                } else if j >= n && k >= n {
                    assert(filters_apart()(mine[j - n], mine[k - n]));
                    lemma_job_key(mine[j - n], entries);
                    lemma_job_key(mine[k - n], entries);
                } else {
                    let (old, new) = if j < n {
                        (j, k)
                    } else {
                        (k, j)
                    };
                    assert(job_has_feed(front, filters, outcomes.drop_last(), before.jobs[old]));
                    let i = choose|i: int|
                        job_of_feed(front, filters, outcomes.drop_last(), before.jobs[old], i);
                    assert(feeds[i].alias != feeds[feeds.len() - 1].alias);
                    filters.lemma_filter_pred(on_feed(feed.alias), new - n);
                    assert(plan.jobs[new] == fresh[new - n]);
                    assert(plan.jobs[old] == before.jobs[old]);
                    assert(plan.jobs[new].updated.alias == feed.alias);
                    assert(plan.jobs[old].updated.alias == feeds[i].alias);
                }
            }
        }
    }
}

/// A pass that starts running on the plan made of a store's feeds and
/// listed filters belongs to that store.
pub proof fn lemma_plan_coherent(store: TablesView, outcomes: Seq<FeedOutcomeView>)
    requires
        store.wf(),
        canonical(store),
        outcomes.len() == store.feeds.len(),
        forall|k: int|
            0 <= k < outcomes.len() ==> ((#[trigger] outcomes[k]) matches Ok(entries)
                ==> dates_ascend(entries)),
    ensures
        ({
            let plan = planned(store.feeds, listed(store.filters), outcomes);
            coherent(running(plan.lines, plan.failures as usize, plan.jobs), store)
        }),
{
    let feeds = store.feeds;
    let filters = listed(store.filters);
    let plan = planned(feeds, filters, outcomes);
    lemma_listed(store);
    lemma_jobs_apart(feeds, filters, outcomes);
    lemma_plan_jobs(feeds, filters, outcomes);
    assert forall|k: int| 0 <= k < plan.jobs.len() implies job_fits(
        #[trigger] plan.jobs[k],
        store,
    ) by {
        let job = plan.jobs[k];
        assert(job_has_feed(feeds, filters, outcomes, job));
        let i = choose|i: int| job_of_feed(feeds, filters, outcomes, job, i);
        let entries = outcomes[i]->Ok_0;
        let p = choose|p: int| 0 <= p < filters.len() && filters[p] == job.filter;
        let r = choose|r: int|
            0 <= r < store.filters.len() && filters[p] == filter_of(store.filters[r]);
        lemma_canonical_row(store.filters[r]);
        law_watermark_moves_forward(job.filter, entries);
        assert forall|x: int|
            0 <= x < store.filters.len() && same_key(
                #[trigger] store.filters[x],
                row_of(job.updated),
            ) implies moved_on(store.filters[x].last_updated, job.updated.last_updated) by {
            if x < r {
                assert(!same_key(store.filters[x], store.filters[r]));
            } else if r < x {
                assert(!same_key(store.filters[r], store.filters[x]));
            }
        }
    }
}

/// What a download gives is in ascending order of publish date.
pub proof fn lemma_downloaded_ascends(download: DownloadView)
    ensures
        downloaded(download) matches Ok(entries) ==> dates_ascend(entries),
{
    match download {
        DownloadView::Fetched(bytes) => {
            match feed_items(bytes) {
                Some(items) => {
                    lemma_by_date(crate::update::entry::entries_of(items));
                },
                None => {},
            }
        },
        DownloadView::Failed { .. } => {},
    }
}

/// No step of an update pass moves a watermark back: after the step the
/// store holds the feeds and the filters that it held, and every filter
/// has the watermark that it had or a later one. With that the store is
/// well formed and canonical as it was, and the pass belongs to it, so
/// that the same holds of the next step and of every pass after this one.
///
/// This is stated of canonical stores: a filter whose keywords hold the
/// separator can be stored under a row that another filter's watermark is
/// written to.
pub proof fn law_update_keeps_watermarks(pass: PassView, store: TablesView, event: UpdateEventView)
    requires
        pass.wf(),
        store.wf(),
        canonical(store),
        coherent(pass, store),
    ensures
        grown(store, update_step(pass, store, event).store),
        update_step(pass, store, event).store.wf(),
        canonical(update_step(pass, store, event).store),
        coherent(update_step(pass, store, event).pass, update_step(pass, store, event).store),
{
    let step = update_step(pass, store, event);
    match (pass.stage, event) {
        (Stage::Fresh, UpdateEventView::Start) => {},
        (Stage::Downloading, UpdateEventView::Downloaded(downloads)) => {
            if downloads.len() == pass.feeds.len() {
                let outcomes = downloads.map_values(|download: DownloadView| downloaded(download));
                assert forall|k: int| 0 <= k < outcomes.len() implies ((
                #[trigger] outcomes[k]) matches Ok(entries) ==> dates_ascend(entries)) by {
                    lemma_downloaded_ascends(downloads[k]);
                }
                if !crate::update::pass::all_lost(outcomes) {
                    let plan = planned(pass.feeds, pass.filters, outcomes);
                    lemma_plan_coherent(store, outcomes);
                    lemma_settled_grows(
                        running(plan.lines, plan.failures as usize, plan.jobs),
                        store,
                    );
                }
            }
        },
        (Stage::Running, UpdateEventView::ScriptFinished(result)) => {
            if result.succeeded() {
                let next = entry_done(pass, result->Exited_0);
                assert forall|k: int| next.job <= k < next.jobs.len() implies job_fits(
                    #[trigger] next.jobs[k],
                    store,
                ) by {
                    assert(job_fits(pass.jobs[k], store));
                }
                lemma_settled_grows(next, store);
            } else {
                let next = job_failed(pass, result);
                assert forall|k: int| next.job <= k < next.jobs.len() implies job_fits(
                    #[trigger] next.jobs[k],
                    store,
                ) by {
                    assert(job_fits(pass.jobs[k], store));
                }
                lemma_settled_grows(next, store);
            }
        },
        _ => {},
    }
    lemma_grown_keeps(store, step.store);
}

} // verus!
