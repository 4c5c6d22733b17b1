//! Planning a pass: which filters go with which feed, which feeds cannot
//! be acted on, and what each remaining filter is to do.

use crate::find::count_where;
use crate::models::feed::{Feed, FeedView};
use crate::models::filter::{Filter, FilterView};
use crate::update::entry::{dates_ascend, FeedEntry, FeedEntryView};
use crate::update::matching::{plan_of, process_single_filter, FilterPlan, FilterPlanView};
use crate::update::report::{feed_line, FeedFailure, FailedFeedView};
use vstd::prelude::*;
use vstd::seq_lib::*;

verus! {

/// What became of a feed's download: its entries in ascending order of
/// publish date, or why there are none.
pub type FeedOutcome = Result<Vec<FeedEntry>, FeedFailure>;

/// What a feed outcome holds.
pub type FeedOutcomeView = Result<Seq<FeedEntryView>, FailedFeedView>;

/// The plan of a pass.
#[derive(Debug, PartialEq, Eq)]
pub struct Plan {
    /// The feeds' lines of the report.
    pub lines: Vec<(Feed, Result<(), FeedFailure>)>,
    /// The number of filters that are skipped with their feed.
    pub failures: usize,
    /// What each other filter is to do: feed by feed in the order of the
    /// feeds, and the filters of a feed in the order given.
    pub jobs: Vec<FilterPlan>,
}

/// What a plan holds.
pub struct PlanView {
    pub lines: Seq<(FeedView, Result<(), FailedFeedView>)>,
    pub failures: nat,
    pub jobs: Seq<FilterPlanView>,
}

impl Clone for FeedFailure {
    fn clone(&self) -> (r: FeedFailure)
        ensures
            r@ == self@,
    {
        match self {
            FeedFailure::Download { reason } => FeedFailure::Download { reason: reason.clone() },
            FeedFailure::Parse => FeedFailure::Parse,
            FeedFailure::Data { invalid } => FeedFailure::Data { invalid: *invalid },
        }
    }
}

impl View for Plan {
    type V = PlanView;

    open spec fn view(&self) -> PlanView {
        PlanView {
            lines: self.lines@.map_values(
                |line: (Feed, Result<(), FeedFailure>)| feed_line(line),
            ),
            failures: self.failures as nat,
            jobs: self.jobs.deep_view(),
        }
    }
}

/// What a feed outcome holds.
pub open spec fn outcome_view(outcome: FeedOutcome) -> FeedOutcomeView {
    match outcome {
        Ok(entries) => Ok(entries.deep_view()),
        Err(failure) => Err(failure@),
    }
}

/// What a list of feed outcomes holds.
pub open spec fn outcomes_view(outcomes: Seq<FeedOutcome>) -> Seq<FeedOutcomeView> {
    outcomes.map_values(|outcome: FeedOutcome| outcome_view(outcome))
}

/// The predicate that picks the filters on the feed of this alias.
pub open spec fn on_feed(alias: Seq<char>) -> spec_fn(FilterView) -> bool {
    |filter: FilterView| filter.alias == alias
}

/// The predicate that picks the filters on any of the feeds.
pub open spec fn on_any(feeds: Seq<FeedView>) -> spec_fn(FilterView) -> bool {
    |filter: FilterView|
        exists|k: int| 0 <= k < feeds.len() && (#[trigger] feeds[k]).alias == filter.alias
}

/// No two feeds share an alias.
pub open spec fn distinct_aliases(feeds: Seq<FeedView>) -> bool {
    forall|i: int, j: int|
        0 <= i < j < feeds.len() ==> (#[trigger] feeds[i]).alias != (#[trigger] feeds[j]).alias
}

/// The filters of each feed: for each feed in turn, the filters on it, in
/// the order given.
pub open spec fn joined(feeds: Seq<FeedView>, filters: Seq<FilterView>) -> Seq<Seq<FilterView>> {
    feeds.map_values(|feed: FeedView| filters.filter(on_feed(feed.alias)))
}

/// What each of the filters is to do on the entries.
pub open spec fn plans_for(filters: Seq<FilterView>, entries: Seq<FeedEntryView>) -> Seq<
    FilterPlanView,
> {
    filters.map_values(|filter: FilterView| plan_of(filter, entries))
}

/// The plan of a pass over the feeds, where `outcomes` holds what became
/// of each feed's download. A feed without entries gets a line with the
/// reason, and each filter on it counts as a failure; a feed with entries
/// gets a line without, and each filter on it gets its plan.
pub open spec fn planned(
    feeds: Seq<FeedView>,
    filters: Seq<FilterView>,
    outcomes: Seq<FeedOutcomeView>,
) -> PlanView
    decreases feeds.len(),
{
    if feeds.len() == 0 || outcomes.len() != feeds.len() {
        PlanView { lines: Seq::empty(), failures: 0, jobs: Seq::empty() }
    } else {
        let before = planned(feeds.drop_last(), filters, outcomes.drop_last());
        let feed = feeds.last();
        let mine = filters.filter(on_feed(feed.alias));
        match outcomes.last() {
            Ok(entries) => PlanView {
                lines: before.lines.push((feed, Ok(()))),
                failures: before.failures,
                jobs: before.jobs + plans_for(mine, entries),
            },
            Err(failure) => PlanView {
                lines: before.lines.push((feed, Err(failure))),
                failures: before.failures + mine.len(),
                jobs: before.jobs,
            },
        }
    }
}

/// Two predicates that no item of a list both meets pick, together, as
/// many items as the one and the other.
pub proof fn lemma_count_split<T>(
    s: Seq<T>,
    p: spec_fn(T) -> bool,
    q: spec_fn(T) -> bool,
    either: spec_fn(T) -> bool,
)
    requires
        forall|i: int| 0 <= i < s.len() ==> either(#[trigger] s[i]) == (p(s[i]) || q(s[i])),
        forall|i: int| 0 <= i < s.len() ==> !(p(#[trigger] s[i]) && q(s[i])),
    ensures
        count_where(s, either) == count_where(s, p) + count_where(s, q),
    decreases s.len(),
{
    reveal(Seq::filter);
    if s.len() > 0 {
        let front = s.drop_last();
        assert forall|i: int| 0 <= i < front.len() implies either(#[trigger] front[i]) == (p(
            front[i],
        ) || q(front[i])) && !(p(front[i]) && q(front[i])) by {
            assert(front[i] == s[i]);
        }
        lemma_count_split(front, p, q, either);
        assert(s.last() == s[s.len() - 1]);
    }
}

/// Every filter is skipped or planned at most once: the failures and the
/// jobs of a plan are, together, as many as the filters on any of the
/// feeds.
pub proof fn lemma_plan_size(
    feeds: Seq<FeedView>,
    filters: Seq<FilterView>,
    outcomes: Seq<FeedOutcomeView>,
)
    requires
        distinct_aliases(feeds),
        outcomes.len() == feeds.len(),
    ensures
        planned(feeds, filters, outcomes).failures + planned(feeds, filters, outcomes).jobs.len()
            == count_where(filters, on_any(feeds)),
        count_where(filters, on_any(feeds)) <= filters.len(),
        planned(feeds, filters, outcomes).lines.len() == feeds.len(),
    decreases feeds.len(),
{
    filters.lemma_filter_len(on_any(feeds));
    if feeds.len() == 0 {
        assert forall|i: int| 0 <= i < filters.len() implies !on_any(feeds)(
            #[trigger] filters[i],
        ) by {}
        crate::find::lemma_count_zero(filters, on_any(feeds));
    } else {
        let front = feeds.drop_last();
        let feed = feeds.last();
        assert forall|i: int, j: int| 0 <= i < j < front.len() implies (#[trigger] front[i]).alias
            != (#[trigger] front[j]).alias by {
            assert(feeds[i].alias != feeds[j].alias);
        }
        lemma_plan_size(front, filters, outcomes.drop_last());
        assert forall|i: int| 0 <= i < filters.len() implies on_any(feeds)(#[trigger] filters[i])
            == (on_any(front)(filters[i]) || on_feed(feed.alias)(filters[i])) && !(on_any(front)(
            filters[i],
        ) && on_feed(feed.alias)(filters[i])) by {
            let f = filters[i];
            if on_any(front)(f) {
                let k = choose|k: int| 0 <= k < front.len() && (#[trigger] front[k]).alias
                    == f.alias;
                assert(feeds[k].alias == f.alias);
                assert(feeds[k].alias != feeds[feeds.len() - 1].alias);
            }
            if on_feed(feed.alias)(f) {
                assert(feeds[feeds.len() - 1].alias == f.alias);
            }
            if on_any(feeds)(f) {
                let k = choose|k: int| 0 <= k < feeds.len() && (#[trigger] feeds[k]).alias
                    == f.alias;
                if k < front.len() {
                    assert(front[k].alias == f.alias);
                }
            }
        }
        lemma_count_split(filters, on_any(front), on_feed(feed.alias), on_any(feeds));
    }
}

/// Sorts the filters by feed: for each feed in turn, the filters on it, in
/// the order given. A filter on none of the feeds is in no group.
pub fn join_feeds_and_filters(feeds: &Vec<Feed>, filters: &Vec<Filter>) -> (groups: Vec<
    Vec<Filter>,
>)
    ensures
        groups.deep_view() == joined(feeds.deep_view(), filters.deep_view()),
        groups.len() == feeds.len(),
{
    let ghost all = filters.deep_view();
    let mut groups: Vec<Vec<Filter>> = Vec::new();
    let mut k: usize = 0;
    while k < feeds.len()
        invariant
            k <= feeds.len(),
            all == filters.deep_view(),
            groups.len() == k,
            forall|g: int|
                0 <= g < k ==> (#[trigger] groups[g]).deep_view() == all.filter(
                    on_feed(feeds[g]@.alias),
                ),
        decreases feeds.len() - k,
    {
        let feed = &feeds[k];
        let mut group: Vec<Filter> = Vec::new();
        let mut j: usize = 0;
        proof {
            assert(all.take(0) =~= Seq::<FilterView>::empty());
            assert(all.take(0).filter(on_feed(feed@.alias)) =~= Seq::<FilterView>::empty()) by {
                reveal(Seq::filter);
            }
            assert(group.deep_view() =~= Seq::<FilterView>::empty());
        }
        while j < filters.len()
            invariant
                j <= filters.len(),
                all == filters.deep_view(),
                group.deep_view() == all.take(j as int).filter(on_feed(feed@.alias)),
            decreases filters.len() - j,
        {
            proof {
                assert(all.take(j + 1) =~= all.take(j as int).push(all[j as int]));
                all.take(j as int).lemma_filter_push(all[j as int], on_feed(feed@.alias));
                assert(all[j as int] == filters[j as int]@);
            }
            if filters[j].alias == feed.alias {
                let ghost before = group.deep_view();
                group.push(filters[j].clone());
                assert(group.deep_view() =~= before.push(filters[j as int]@));
            }
            j += 1;
        }
        assert(all.take(filters.len() as int) =~= all);
        groups.push(group);
        k += 1;
    }
    assert(groups.deep_view() =~= joined(feeds.deep_view(), filters.deep_view()));
    groups
}

/// Plans a pass over the feeds, where `outcomes` holds what became of each
/// feed's download, one outcome for each feed. The feeds must have
/// distinct aliases, and the entries of each outcome must be in ascending
/// order of publish date.
pub fn plan_pass(feeds: &Vec<Feed>, filters: &Vec<Filter>, outcomes: &Vec<FeedOutcome>) -> (plan:
    Plan)
    requires
        outcomes.len() == feeds.len(),
        distinct_aliases(feeds.deep_view()),
        forall|k: int|
            0 <= k < outcomes.len() ==> ((#[trigger] outcomes[k]) matches Ok(entries)
                ==> dates_ascend(entries.deep_view())),
    ensures
        plan@ == planned(feeds.deep_view(), filters.deep_view(), outcomes_view(outcomes@)),
        plan.failures + plan.jobs.len() <= filters.len(),
{
    let ghost fs = feeds.deep_view();
    let ghost all = filters.deep_view();
    let ghost os = outcomes_view(outcomes@);
    let groups = join_feeds_and_filters(feeds, filters);
    let mut lines: Vec<(Feed, Result<(), FeedFailure>)> = Vec::new();
    let mut failures: usize = 0;
    let mut jobs: Vec<FilterPlan> = Vec::new();
    let mut k: usize = 0;
    proof {
        assert(fs.take(0) =~= Seq::<FeedView>::empty());
        assert(lines@.map_values(|line: (Feed, Result<(), FeedFailure>)| feed_line(line))
            =~= Seq::empty());
        assert(jobs.deep_view() =~= Seq::<FilterPlanView>::empty());
    }
    while k < feeds.len()
        invariant
            k <= feeds.len(),
            fs == feeds.deep_view(),
            all == filters.deep_view(),
            os == outcomes_view(outcomes@),
            outcomes.len() == feeds.len(),
            distinct_aliases(fs),
            groups.deep_view() == joined(fs, all),
            groups.len() == feeds.len(),
            forall|k: int|
                0 <= k < outcomes.len() ==> ((#[trigger] outcomes[k]) matches Ok(entries)
                    ==> dates_ascend(entries.deep_view())),
            (Plan { lines, failures, jobs })@ == planned(fs.take(k as int), all, os.take(k as int)),
        decreases feeds.len() - k,
    {
        let feed = &feeds[k];
        let group = &groups[k];
        let ghost before = planned(fs.take(k as int), all, os.take(k as int));
        let ghost old_lines = lines@.map_values(
            |line: (Feed, Result<(), FeedFailure>)| feed_line(line),
        );
        let ghost old_jobs = jobs.deep_view();
        proof {
            assert(fs.take(k + 1).drop_last() =~= fs.take(k as int));
            assert(os.take(k + 1).drop_last() =~= os.take(k as int));
            assert(fs.take(k + 1).last() == feed@);
            assert(os.take(k + 1).last() == outcome_view(outcomes[k as int]));
            assert(group.deep_view() == groups.deep_view()[k as int]);
            assert(group.deep_view() == all.filter(on_feed(feed@.alias)));
            assert forall|i: int, j: int| 0 <= i < j < fs.take(k + 1).len() implies (
            #[trigger] fs.take(k + 1)[i]).alias != (#[trigger] fs.take(k + 1)[j]).alias by {
                assert(fs[i].alias != fs[j].alias);
            }
            lemma_plan_size(fs.take(k + 1), all, os.take(k + 1));
        }
        match &outcomes[k] {
            Ok(entries) => {
                let mut j: usize = 0;
                assert(old_jobs + plans_for(group.deep_view().take(0), entries.deep_view())
                    =~= old_jobs);
                while j < group.len()
                    invariant
                        j <= group.len(),
                        dates_ascend(entries.deep_view()),
                        jobs.deep_view() == old_jobs + plans_for(
                            group.deep_view().take(j as int),
                            entries.deep_view(),
                        ),
                    decreases group.len() - j,
                {
                    let ghost so_far = jobs.deep_view();
                    let job = process_single_filter(&group[j], entries);
                    jobs.push(job);
                    assert(jobs.deep_view() =~= so_far.push(job@));
                    assert(group.deep_view().take(j + 1) =~= group.deep_view().take(j as int).push(
                        group[j as int]@,
                    ));
                    assert(plans_for(group.deep_view().take(j + 1), entries.deep_view())
                        =~= plans_for(group.deep_view().take(j as int), entries.deep_view()).push(
                        job@,
                    ));
                    j += 1;
                }
                assert(group.deep_view().take(group.len() as int) =~= group.deep_view());
                lines.push((feed.clone(), Ok(())));
                assert(lines@.map_values(|line: (Feed, Result<(), FeedFailure>)| feed_line(line))
                    =~= old_lines.push((feed@, Ok(()))));
            },
            Err(failure) => {
                proof {
                    let after = planned(fs.take(k + 1), all, os.take(k + 1));
                    assert(os.take(k + 1).last() == Err::<Seq<FeedEntryView>, FailedFeedView>(
                        failure@,
                    ));
                    assert(after.failures == before.failures + group.deep_view().len());
                    assert(all.len() == filters.len());
                }
                failures = failures + group.len();
                lines.push((feed.clone(), Err(failure.clone())));
                assert(lines@.map_values(|line: (Feed, Result<(), FeedFailure>)| feed_line(line))
                    =~= old_lines.push((feed@, Err(failure@))));
            },
        }
        k += 1;
    }
    proof {
        assert(fs.take(feeds.len() as int) =~= fs);
        assert(os.take(feeds.len() as int) =~= os);
        lemma_plan_size(fs, all, os);
    }
    Plan { lines, failures, jobs }
}

} // verus!
