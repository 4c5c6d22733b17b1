//! The match engine: which entries of a feed a filter acts on, and where
//! that leaves the filter's watermark.

use crate::models::filter::{keywords_match, Filter, FilterView};
use crate::update::entry::{dates_ascend, FeedEntry, FeedEntryView};
use vstd::prelude::*;
use vstd::seq_lib::*;

verus! {

/// What a filter is to do on one feed's entries.
#[derive(Debug, PartialEq, Eq)]
pub struct FilterPlan {
    /// The filter as it stands.
    pub filter: Filter,
    /// The entries to act on, in ascending order of publish date.
    pub matches: Vec<FeedEntry>,
    /// The filter as it will stand once every action has succeeded.
    pub updated: Filter,
    /// Whether `updated` has a later watermark than `filter`.
    pub was_updated: bool,
}

/// What a plan holds.
pub struct FilterPlanView {
    pub filter: FilterView,
    pub matches: Seq<FeedEntryView>,
    pub updated: FilterView,
    pub was_updated: bool,
}

impl View for FilterPlan {
    type V = FilterPlanView;

    open spec fn view(&self) -> FilterPlanView {
        FilterPlanView {
            filter: self.filter@,
            matches: self.matches.deep_view(),
            updated: self.updated@,
            was_updated: self.was_updated,
        }
    }
}

impl DeepView for FilterPlan {
    type V = FilterPlanView;

    open spec fn deep_view(&self) -> FilterPlanView {
        self@
    }
}

/// The entry is new to the filter: the filter has never run, or the entry
/// was published after the filter's watermark. An entry published at the
/// watermark is not new.
pub open spec fn is_new(filter: FilterView, entry: FeedEntryView) -> bool {
    match filter.last_updated {
        None => true,
        Some(watermark) => watermark.is_before(entry.pub_date),
    }
}

/// The filter acts on the entry: the title holds every keyword, and the
/// entry is new to the filter.
pub open spec fn entry_matches(filter: FilterView, entry: FeedEntryView) -> bool {
    keywords_match(filter.keywords, entry.title) && is_new(filter, entry)
}

/// `entry_matches` for one filter, as a predicate on entries.
pub open spec fn matcher(filter: FilterView) -> spec_fn(FeedEntryView) -> bool {
    |entry: FeedEntryView| entry_matches(filter, entry)
}

/// The entries that the filter acts on, in the order given.
pub open spec fn matching_entries(
    filter: FilterView,
    entries: Seq<FeedEntryView>,
) -> Seq<FeedEntryView> {
    entries.filter(matcher(filter))
}

/// The filter once it has acted on all its matching entries: its watermark
/// is the publish date of the last of them; without a match it is
/// unchanged.
pub open spec fn advanced(filter: FilterView, entries: Seq<FeedEntryView>) -> FilterView {
    let matches = matching_entries(filter, entries);
    if matches.len() == 0 {
        filter
    } else {
        FilterView { last_updated: Some(matches.last().pub_date), ..filter }
    }
}

/// What the filter is to do on the entries.
pub open spec fn plan_of(filter: FilterView, entries: Seq<FeedEntryView>) -> FilterPlanView {
    FilterPlanView {
        filter,
        matches: matching_entries(filter, entries),
        updated: advanced(filter, entries),
        was_updated: matching_entries(filter, entries).len() > 0,
    }
}

/// The entries that a filter matches are entries of the list, in the
/// list's order, and each of them matches.
pub proof fn lemma_matching_entries(filter: FilterView, entries: Seq<FeedEntryView>)
    ensures
        forall|k: int|
            0 <= k < matching_entries(filter, entries).len() ==> entry_matches(
                filter,
                #[trigger] matching_entries(filter, entries)[k],
            ) && entries.contains(matching_entries(filter, entries)[k]),
        dates_ascend(entries) ==> dates_ascend(matching_entries(filter, entries)),
    decreases entries.len(),
{
    reveal(Seq::filter);
    let matches = matching_entries(filter, entries);
    if entries.len() > 0 {
        let front = entries.drop_last();
        lemma_matching_entries(filter, front);
        let before = matching_entries(filter, front);
        assert forall|k: int| 0 <= k < matches.len() implies entry_matches(
            filter,
            #[trigger] matches[k],
        ) && entries.contains(matches[k]) by {
            if k < before.len() {
                assert(before.contains(before[k])) by {
                    assert(before[k] == before[k]);
                }
                assert(front.contains(before[k]));
                let w = choose|w: int| 0 <= w < front.len() && front[w] == before[k];
                assert(entries[w] == before[k]);
            } else {
                assert(matches[k] == entries[entries.len() - 1]);
            }
        }
        if dates_ascend(entries) {
            assert(dates_ascend(front)) by {
                assert forall|i: int, j: int| 0 <= i < j < front.len() implies front[i].pub_date.is_not_after(
                    front[j].pub_date,
                ) by {
                    assert(entries[i].pub_date.is_not_after(entries[j].pub_date));
                }
            }
            assert forall|i: int, j: int| 0 <= i < j < matches.len() implies matches[i].pub_date.is_not_after(
                matches[j].pub_date,
            ) by {
                if j == before.len() {
                    assert(front.contains(before[i]));
                    let w = choose|w: int| 0 <= w < front.len() && front[w] == before[i];
                    assert(entries[w].pub_date.is_not_after(
                        entries[entries.len() - 1].pub_date,
                    ));
                }
            }
        }
    }
}

/// An entry published at a filter's watermark never matches the filter,
/// whatever its title.
pub proof fn law_watermark_date_never_matches(filter: FilterView, entry: FeedEntryView)
    requires
        filter.last_updated == Some(entry.pub_date),
    ensures
        !entry_matches(filter, entry),
{
}

/// Acting on a feed's entries never moves a filter's watermark back, and
/// changes nothing else in the filter. Where it moves, the new watermark
/// is after the old one and not before any entry acted on.
pub proof fn law_watermark_moves_forward(filter: FilterView, entries: Seq<FeedEntryView>)
    requires
        dates_ascend(entries),
    ensures
        advanced(filter, entries) == (FilterView {
            last_updated: advanced(filter, entries).last_updated,
            ..filter
        }),
        matching_entries(filter, entries).len() == 0 ==> advanced(filter, entries) == filter,
        matching_entries(filter, entries).len() > 0 ==> {
            &&& advanced(filter, entries).last_updated is Some
            &&& filter.last_updated matches Some(old) ==> old.is_before(
                advanced(filter, entries).last_updated->0,
            )
            &&& forall|k: int|
                0 <= k < matching_entries(filter, entries).len() ==> (#[trigger] matching_entries(
                    filter,
                    entries,
                )[k]).pub_date.is_not_after(advanced(filter, entries).last_updated->0)
        },
{
    lemma_matching_entries(filter, entries);
    let matches = matching_entries(filter, entries);
    if matches.len() > 0 {
        assert(entry_matches(filter, matches[matches.len() - 1]));
        assert forall|k: int| 0 <= k < matches.len() implies (#[trigger] matches[k]).pub_date.is_not_after(
            matches.last().pub_date,
        ) by {
            if k < matches.len() - 1 {
                assert(matches[k].pub_date.is_not_after(matches[matches.len() - 1].pub_date));
            }
        }
    }
}

/// Once a filter has acted on a feed's entries, none of those entries
/// matches it again.
pub proof fn law_acted_entries_never_match_again(filter: FilterView, entries: Seq<FeedEntryView>)
    requires
        dates_ascend(entries),
    ensures
        matching_entries(advanced(filter, entries), entries).len() == 0,
{
    let after = advanced(filter, entries);
    let again = matching_entries(after, entries);
    lemma_matching_entries(after, entries);
    lemma_matching_entries(filter, entries);
    law_watermark_moves_forward(filter, entries);
    let matches = matching_entries(filter, entries);
    if again.len() > 0 {
        let e = again[0];
        assert(entry_matches(after, e) && entries.contains(e));
        let w = choose|w: int| 0 <= w < entries.len() && entries[w] == e;
        if matches.len() == 0 {
            assert(entry_matches(filter, e));
            entries.lemma_filter_contains(matcher(filter), w);
            assert(matches.contains(e));
        } else {
            // e is newer than the new watermark, so it was new to the filter
            // as it stood, and was among the entries acted on
            assert(after.last_updated->0.is_before(e.pub_date));
            assert(entry_matches(filter, e));
            entries.lemma_filter_contains(matcher(filter), w);
            assert(matches.contains(e));
            let k = choose|k: int| 0 <= k < matches.len() && matches[k] == e;
            assert(matches[k].pub_date.is_not_after(after.last_updated->0));
        }
    }
}

/// Matches one filter against one feed's entries, which must be in
/// ascending order of publish date: the entries to act on, and the filter
/// as it will stand once every action has succeeded.
pub fn process_single_filter(filter: &Filter, entries: &Vec<FeedEntry>) -> (plan: FilterPlan)
    requires
        dates_ascend(entries.deep_view()),
    ensures
        plan@ == plan_of(filter@, entries.deep_view()),
{
    let ghost all = entries.deep_view();
    let mut matches: Vec<FeedEntry> = Vec::new();
    let mut most_recent = filter.last_updated;
    let mut i: usize = 0;
    proof {
        assert(all.take(0) =~= Seq::<FeedEntryView>::empty());
        assert(matching_entries(filter@, all.take(0)) =~= Seq::<FeedEntryView>::empty()) by {
            reveal(Seq::filter);
        }
        assert(matches.deep_view() =~= Seq::<FeedEntryView>::empty());
    }
    while i < entries.len()
        invariant
            all == entries.deep_view(),
            i <= entries.len(),
            matches.deep_view() == matching_entries(filter@, all.take(i as int)),
            most_recent == advanced(filter@, all.take(i as int)).last_updated,
        decreases entries.len() - i,
    {
        let entry = &entries[i];
        proof {
            assert(all.take(i + 1) =~= all.take(i as int).push(all[i as int]));
            all.take(i as int).lemma_filter_push(all[i as int], matcher(filter@));
            assert(all[i as int] == entry@);
        }
        let fresh = match filter.last_updated {
            None => true,
            Some(watermark) => watermark.before(&entry.pub_date),
        };
        if fresh && filter.matches_keywords(entry.title.as_str()) {
            let ghost before = matches.deep_view();
            matches.push(entry.clone());
            most_recent = Some(entry.pub_date);
            assert(matches.deep_view() =~= before.push(entry@));
        }
        i += 1;
    }
    assert(all.take(entries.len() as int) =~= all);
    let was_updated = matches.len() > 0;
    let mut updated = filter.clone();
    if was_updated {
        if let Some(last_update) = most_recent {
            updated.update_time(last_update);
        }
    }
    FilterPlan { filter: filter.clone(), matches, updated, was_updated }
}

} // verus!
