//! What holds of every plan and of every step of a pass.

use crate::find::count_where;
use crate::models::feed::FeedView;
use crate::models::filter::FilterView;
use crate::update::entry::{entry_of, is_invalid, validated, RawItemView};
use crate::update::matching::{plan_of, FilterPlanView};
use crate::update::plan::{distinct_aliases, on_feed, planned, plans_for, FeedOutcomeView};
use crate::update::report::FailedFeedView;
use vstd::prelude::*;
use vstd::seq_lib::*;

verus! {

/// The job is the plan of one of the filters on the feed at position `i`,
/// whose download gave entries.
pub open spec fn job_of_feed(
    feeds: Seq<FeedView>,
    filters: Seq<FilterView>,
    outcomes: Seq<FeedOutcomeView>,
    job: FilterPlanView,
    i: int,
) -> bool {
    &&& 0 <= i < feeds.len()
    &&& outcomes[i] is Ok
    &&& job.filter.alias == feeds[i].alias
    &&& filters.contains(job.filter)
    &&& job == plan_of(job.filter, outcomes[i]->Ok_0)
}

/// The job is the plan of one of the filters, on a feed whose download
/// gave entries.
pub open spec fn job_has_feed(
    feeds: Seq<FeedView>,
    filters: Seq<FilterView>,
    outcomes: Seq<FeedOutcomeView>,
    job: FilterPlanView,
) -> bool {
    exists|i: int| job_of_feed(feeds, filters, outcomes, job, i)
}

/// Every job of a plan is the plan of one of the filters, on a feed whose
/// download gave entries; and every feed has its line, in the order of the
/// feeds.
pub proof fn lemma_plan_jobs(
    feeds: Seq<FeedView>,
    filters: Seq<FilterView>,
    outcomes: Seq<FeedOutcomeView>,
)
    requires
        outcomes.len() == feeds.len(),
    ensures
        forall|j: int|
            0 <= j < planned(feeds, filters, outcomes).jobs.len() ==> job_has_feed(
                feeds,
                filters,
                outcomes,
                #[trigger] planned(feeds, filters, outcomes).jobs[j],
            ),
        planned(feeds, filters, outcomes).lines.len() == feeds.len(),
        forall|i: int|
            0 <= i < feeds.len() ==> #[trigger] planned(feeds, filters, outcomes).lines[i] == (
                feeds[i],
                match outcomes[i] {
                    Ok(_) => Ok::<(), FailedFeedView>(()),
                    Err(failure) => Err(failure),
                },
            ),
    decreases feeds.len(),
{
    let plan = planned(feeds, filters, outcomes);
    if feeds.len() > 0 {
        let front = feeds.drop_last();
        let before = planned(front, filters, outcomes.drop_last());
        lemma_plan_jobs(front, filters, outcomes.drop_last());
        let feed = feeds.last();
        let mine = filters.filter(on_feed(feed.alias));
        assert forall|j: int| 0 <= j < plan.jobs.len() implies job_has_feed(
            feeds,
            filters,
            outcomes,
            #[trigger] plan.jobs[j],
        ) by {
            if j < before.jobs.len() {
                assert(plan.jobs[j] == before.jobs[j]);
                assert(job_has_feed(front, filters, outcomes.drop_last(), before.jobs[j]));
                let i = choose|i: int|
                    job_of_feed(front, filters, outcomes.drop_last(), before.jobs[j], i);
                assert(job_of_feed(feeds, filters, outcomes, plan.jobs[j], i));
            } else {
                let p = j - before.jobs.len();
                let entries = outcomes.last()->Ok_0;
                assert(plan.jobs[j] == plans_for(mine, entries)[p]);
                filters.lemma_filter_pred(on_feed(feed.alias), p);
                assert(mine.contains(mine[p]));
                filters.lemma_filter_contains_rev(on_feed(feed.alias), mine[p]);
                assert(job_of_feed(feeds, filters, outcomes, plan.jobs[j], feeds.len() - 1));
            }
        }
        assert forall|i: int| 0 <= i < feeds.len() implies #[trigger] plan.lines[i] == (
            feeds[i],
            match outcomes[i] {
                Ok(_) => Ok::<(), FailedFeedView>(()),
                Err(failure) => Err(failure),
            },
        ) by {
            if i < front.len() {
                assert(plan.lines[i] == before.lines[i]);
            }
        }
    }
}

/// A plan counts, for each feed without entries, every filter on it as a
/// failure.
pub proof fn lemma_plan_failures(
    feeds: Seq<FeedView>,
    filters: Seq<FilterView>,
    outcomes: Seq<FeedOutcomeView>,
    k: int,
)
    requires
        outcomes.len() == feeds.len(),
        0 <= k < feeds.len(),
        outcomes[k] is Err,
    ensures
        planned(feeds, filters, outcomes).failures >= count_where(filters, on_feed(feeds[k].alias)),
    decreases feeds.len(),
{
    if k < feeds.len() - 1 {
        lemma_plan_failures(feeds.drop_last(), filters, outcomes.drop_last(), k);
    }
}

/// A feed with any item that is no entry gives no entries at all.
pub proof fn law_invalid_item_rejects_feed(items: Seq<RawItemView>, i: int)
    requires
        0 <= i < items.len(),
        entry_of(items[i]) is Err,
    ensures
        validated(items) is Err,
{
    crate::find::lemma_count_zero(items, is_invalid());
    assert(is_invalid()(items[i]));
}

/// A feed without entries, be it lost on the way or rejected for one
/// invalid item, has its reason in the report, none of its filters runs,
/// and each of them counts as a failure.
pub proof fn law_failed_feed_runs_nothing(
    feeds: Seq<FeedView>,
    filters: Seq<FilterView>,
    outcomes: Seq<FeedOutcomeView>,
    k: int,
)
    requires
        distinct_aliases(feeds),
        outcomes.len() == feeds.len(),
        0 <= k < feeds.len(),
        outcomes[k] is Err,
    ensures
        planned(feeds, filters, outcomes).lines[k] == (
            feeds[k],
            Err::<(), FailedFeedView>(outcomes[k]->Err_0),
        ),
        forall|j: int|
            0 <= j < planned(feeds, filters, outcomes).jobs.len() ==> (#[trigger] planned(
                feeds,
                filters,
                outcomes,
            ).jobs[j]).filter.alias != feeds[k].alias,
        planned(feeds, filters, outcomes).failures >= count_where(filters, on_feed(feeds[k].alias)),
{
    let plan = planned(feeds, filters, outcomes);
    lemma_plan_jobs(feeds, filters, outcomes);
    lemma_plan_failures(feeds, filters, outcomes, k);
    assert forall|j: int| 0 <= j < plan.jobs.len() implies (#[trigger] plan.jobs[j]).filter.alias
        != feeds[k].alias by {
        assert(job_has_feed(feeds, filters, outcomes, plan.jobs[j]));
        let i = choose|i: int| job_of_feed(feeds, filters, outcomes, plan.jobs[j], i);
        if i < k {
            assert(feeds[i].alias != feeds[k].alias);
        } else if k < i {
            assert(feeds[k].alias != feeds[i].alias);
        }
    }
}

} // verus!
