//! The operations of the store.

use crate::db::keywords::{decode_filter_keywords, decoded_keywords, encode_filter_keywords};
use crate::db::tables::{
    clone_feeds, filter_of, named, row_of, same_key, FilterRow, FilterRowView, RSSActionsTx,
    StoreError, TablesView,
};
use crate::find::{
    count_where, first_where, lemma_count_one, lemma_count_zero, lemma_first_where, lemma_flags,
    tally,
};
use crate::models::feed::{Feed, FeedView};
use crate::models::filter::{Filter, FilterView};
use crate::order::{lemma_slot_is, stable_sort};
use vstd::prelude::*;

verus! {

/// The predicate that picks the rows that are the same filter as `key`.
pub open spec fn keyed(key: FilterRowView) -> spec_fn(FilterRowView) -> bool {
    |row: FilterRowView| same_key(row, key)
}

/// Every wanted keyword is among the keywords at hand.
pub open spec fn holds_all(have: Seq<Seq<char>>, wanted: Seq<Seq<char>>) -> bool {
    forall|i: int| 0 <= i < wanted.len() ==> have.contains(#[trigger] wanted[i])
}

/// The predicate that picks the rows that a delete by `alias` and
/// `wanted` may mean: the filters on that feed whose keywords include all
/// the wanted ones.
pub open spec fn candidate(alias: Seq<char>, wanted: Seq<Seq<char>>) -> spec_fn(
    FilterRowView,
) -> bool {
    |row: FilterRowView| row.alias == alias && holds_all(decoded_keywords(row.keywords), wanted)
}

/// The relation by which filters are listed: `a` comes after `b` if its
/// watermark is earlier, or if it has none and `b` has one.
pub open spec fn staler() -> spec_fn(FilterView, FilterView) -> bool {
    |a: FilterView, b: FilterView|
        match (a.last_updated, b.last_updated) {
            (None, Some(_)) => true,
            (Some(x), Some(y)) => x.is_before(y),
            _ => false,
        }
}

/// The filters that the rows store, latest watermark first and filters
/// that never ran last; filters of one watermark in the order of the rows.
pub open spec fn listed(rows: Seq<FilterRowView>) -> Seq<FilterView> {
    stable_sort(rows.map_values(|row: FilterRowView| filter_of(row)), staler())
}

/// The list of filters holds the filter of every row, once for each row,
/// and never a filter before one with a later watermark, nor a filter
/// that never ran before one that did.
pub proof fn law_filters_listed_latest_first(rows: Seq<FilterRowView>)
    ensures
        crate::order::in_order(listed(rows), staler()),
        listed(rows).to_multiset() == rows.map_values(
            |row: FilterRowView| filter_of(row),
        ).to_multiset(),
        listed(rows).len() == rows.len(),
{
    assert(crate::order::ranks(staler()));
    crate::order::lemma_stable_sort(rows.map_values(|row: FilterRowView| filter_of(row)), staler());
}

/// Adding a feed of a new alias keeps the tables well formed.
proof fn lemma_wf_with_feed(t: TablesView, feed: FeedView)
    requires
        t.wf(),
        !t.has_feed(feed.alias),
    ensures
        (TablesView { feeds: t.feeds.push(feed), ..t }).wf(),
{
    let u = TablesView { feeds: t.feeds.push(feed), ..t };
    assert forall|i: int| 0 <= i < u.filters.len() implies u.has_feed(
        (#[trigger] u.filters[i]).alias,
    ) by {
        assert(t.has_feed(t.filters[i].alias));
        let w = choose|w: int| 0 <= w < t.feeds.len() && (#[trigger] t.feeds[w]).alias
            == t.filters[i].alias;
        assert(u.feeds[w].alias == u.filters[i].alias);
    }
}

/// Whether a watermark is staler than another: earlier, or missing where
/// the other is not.
fn is_staler(a: &Option<crate::time::Timestamp>, b: &Option<crate::time::Timestamp>) -> (r: bool)
    ensures
        r == match (*a, *b) {
            (None, Some(_)) => true,
            (Some(x), Some(y)) => x.is_before(y),
            _ => false,
        },
{
    match (a, b) {
        (None, Some(_)) => true,
        (Some(x), Some(y)) => x.before(y),
        _ => false,
    }
}

/// Whether a list of strings holds a string.
fn includes(have: &Vec<String>, wanted: &String) -> (r: bool)
    ensures
        r == have.deep_view().contains(wanted@),
{
    let mut i: usize = 0;
    while i < have.len()
        invariant
            i <= have.len(),
            forall|j: int| 0 <= j < i ==> have.deep_view()[j] != wanted@,
        decreases have.len() - i,
    {
        if have[i] == *wanted {
            assert(have.deep_view()[i as int] == wanted@);
            return true;
        }
        i += 1;
    }
    false
}

/// Whether a list of strings holds every string of another.
fn includes_all(have: &Vec<String>, wanted: &[String]) -> (r: bool)
    ensures
        r == holds_all(have.deep_view(), wanted.deep_view()),
{
    let mut i: usize = 0;
    while i < wanted.len()
        invariant
            i <= wanted.len(),
            forall|j: int|
                0 <= j < i ==> have.deep_view().contains(#[trigger] wanted.deep_view()[j]),
        decreases wanted.len() - i,
    {
        if !includes(have, &wanted[i]) {
            assert(!have.deep_view().contains(wanted.deep_view()[i as int]));
            return false;
        }
        i += 1;
    }
    true
}

/// A copy of a slice of strings.
fn copy_strings(list: &[String]) -> (r: Vec<String>)
    ensures
        r.deep_view() == list.deep_view(),
{
    let mut r: Vec<String> = Vec::new();
    let mut i: usize = 0;
    while i < list.len()
        invariant
            i <= list.len(),
            r.len() == i,
            forall|j: int| 0 <= j < i ==> r[j]@ == list[j]@,
        decreases list.len() - i,
    {
        r.push(list[i].clone());
        i += 1;
    }
    assert(r.deep_view() =~= list.deep_view());
    r
}

/// A feed that is in the feeds table is in any table with the same feeds.
proof fn lemma_same_feeds(t: TablesView, u: TablesView, alias: Seq<char>)
    requires
        t.has_feed(alias),
        u.feeds == t.feeds,
    ensures
        u.has_feed(alias),
{
    let w = choose|w: int| 0 <= w < t.feeds.len() && (#[trigger] t.feeds[w]).alias == alias;
    assert(u.feeds[w].alias == alias);
}

/// Adding a new filter on a feed that is there keeps the tables well
/// formed.
proof fn lemma_wf_with_filter(t: TablesView, row: FilterRowView)
    requires
        t.wf(),
        t.has_feed(row.alias),
        !t.has_filter(row),
    ensures
        (TablesView { filters: t.filters.push(row), ..t }).wf(),
{
    let u = TablesView { filters: t.filters.push(row), ..t };
    assert forall|i: int| 0 <= i < u.filters.len() implies u.has_feed(
        (#[trigger] u.filters[i]).alias,
    ) by {
        if i < t.filters.len() {
            assert(t.has_feed(t.filters[i].alias));
        }
        lemma_same_feeds(t, u, u.filters[i].alias);
    }
    assert forall|i: int, j: int| 0 <= i < j < u.filters.len() implies !same_key(
        #[trigger] u.filters[i],
        #[trigger] u.filters[j],
    ) by {
        if j < t.filters.len() {
            assert(!same_key(t.filters[i], t.filters[j]));
        } else {
            assert(!same_key(t.filters[i], row));
        }
    }
}

/// Replacing a row by one that is the same filter keeps the tables well
/// formed.
proof fn lemma_wf_with_watermark(t: TablesView, i: int, row: FilterRowView)
    requires
        t.wf(),
        0 <= i < t.filters.len(),
        same_key(row, t.filters[i]),
    ensures
        (TablesView { filters: t.filters.update(i, row), ..t }).wf(),
{
    let u = TablesView { filters: t.filters.update(i, row), ..t };
    assert forall|k: int| 0 <= k < u.filters.len() implies u.has_feed(
        (#[trigger] u.filters[k]).alias,
    ) by {
        assert(t.has_feed(t.filters[k].alias));
        lemma_same_feeds(t, u, u.filters[k].alias);
    }
    assert forall|a: int, b: int| 0 <= a < b < u.filters.len() implies !same_key(
        #[trigger] u.filters[a],
        #[trigger] u.filters[b],
    ) by {
        assert(!same_key(t.filters[a], t.filters[b]));
    }
}

/// Deleting a row keeps the tables well formed.
proof fn lemma_wf_without_filter(t: TablesView, i: int)
    requires
        t.wf(),
        0 <= i < t.filters.len(),
    ensures
        (TablesView { filters: t.filters.remove(i), ..t }).wf(),
{
    let u = TablesView { filters: t.filters.remove(i), ..t };
    assert forall|k: int| 0 <= k < u.filters.len() implies u.has_feed(
        (#[trigger] u.filters[k]).alias,
    ) by {
        if k < i {
            assert(t.has_feed(t.filters[k].alias));
        } else {
            assert(t.has_feed(t.filters[k + 1].alias));
        }
        lemma_same_feeds(t, u, u.filters[k].alias);
    }
    assert forall|a: int, b: int| 0 <= a < b < u.filters.len() implies !same_key(
        #[trigger] u.filters[a],
        #[trigger] u.filters[b],
    ) by {
        let a0 = if a < i { a } else { a + 1 };
        let b0 = if b < i { b } else { b + 1 };
        assert(!same_key(t.filters[a0], t.filters[b0]));
    }
}

/// Deleting a feed that no filter refers to keeps the tables well formed.
proof fn lemma_wf_without_feed(t: TablesView, i: int)
    requires
        t.wf(),
        0 <= i < t.feeds.len(),
        !t.feed_in_use(t.feeds[i].alias),
    ensures
        (TablesView { feeds: t.feeds.remove(i), ..t }).wf(),
{
    let u = TablesView { feeds: t.feeds.remove(i), ..t };
    assert forall|k: int| 0 <= k < u.filters.len() implies u.has_feed(
        (#[trigger] u.filters[k]).alias,
    ) by {
        assert(t.has_feed(t.filters[k].alias));
        let w = choose|w: int| 0 <= w < t.feeds.len() && (#[trigger] t.feeds[w]).alias
            == t.filters[k].alias;
        if w == i {
            assert(t.feed_in_use(t.feeds[i].alias));
        } else if w < i {
            assert(u.feeds[w].alias == u.filters[k].alias);
        } else {
            assert(u.feeds[w - 1].alias == u.filters[k].alias);
        }
    }
    assert forall|a: int, b: int| 0 <= a < b < u.feeds.len() implies (#[trigger] u.feeds[a]).alias
        != (#[trigger] u.feeds[b]).alias by {
        let a0 = if a < i { a } else { a + 1 };
        let b0 = if b < i { b } else { b + 1 };
        assert(t.feeds[a0].alias != t.feeds[b0].alias);
    }
}

/// A predicate that no two items of a list both meet picks at most one.
pub proof fn lemma_count_at_most_one<T>(s: Seq<T>, pred: spec_fn(T) -> bool)
    requires
        forall|i: int, j: int| 0 <= i < j < s.len() ==> !(pred(#[trigger] s[i]) && pred(#[trigger] s[j])),
    ensures
        count_where(s, pred) <= 1,
    decreases s.len(),
{
    reveal(Seq::filter);
    if s.len() > 0 {
        let front = s.drop_last();
        assert forall|i: int, j: int| 0 <= i < j < front.len() implies !(pred(#[trigger] front[i])
            && pred(#[trigger] front[j])) by {
            assert(!(pred(s[i]) && pred(s[j])));
        }
        lemma_count_at_most_one(front, pred);
        if pred(s.last()) {
            lemma_count_zero(front, pred);
            assert forall|j: int| 0 <= j < front.len() implies !pred(#[trigger] front[j]) by {
                assert(!(pred(s[j]) && pred(s[s.len() - 1])));
            }
        }
    }
}

/// In a well-formed store at most one row is a given filter, so an update
/// never meets `CorruptState`.
pub proof fn lemma_filter_rows_unique(t: TablesView, key: FilterRowView)
    requires
        t.wf(),
    ensures
        count_where(t.filters, keyed(key)) <= 1,
        t.has_filter(key) <==> count_where(t.filters, keyed(key)) == 1,
{
    assert forall|i: int, j: int| 0 <= i < j < t.filters.len() implies !(keyed(key)(
        #[trigger] t.filters[i],
    ) && keyed(key)(#[trigger] t.filters[j])) by {
        assert(!same_key(t.filters[i], t.filters[j]));
    }
    lemma_count_at_most_one(t.filters, keyed(key));
    lemma_count_zero(t.filters, keyed(key));
    if t.has_filter(key) {
        let w = choose|w: int| 0 <= w < t.filters.len() && same_key(#[trigger] t.filters[w], key);
        assert(keyed(key)(t.filters[w]));
    }
}

impl RSSActionsTx {
    /// Where the feed of this alias stands in the feeds table.
    fn feed_position(&self, alias: &String) -> (r: Option<usize>)
        ensures
            match r {
                Some(i) => i < self@.feeds.len() && self@.feeds[i as int].alias == alias@,
                None => !self@.has_feed(alias@),
            },
    {
        let mut i: usize = 0;
        while i < self.feeds.len()
            invariant
                i <= self.feeds.len(),
                forall|j: int| 0 <= j < i ==> (#[trigger] self@.feeds[j]).alias != alias@,
            decreases self.feeds.len() - i,
        {
            if self.feeds[i].alias == *alias {
                return Some(i);
            }
            i += 1;
        }
        None
    }

    /// Adds a feed. Fails with `DuplicateFeed`, and changes nothing, if a
    /// feed of this alias is there already.
    pub fn store_feed(&mut self, alias: &str, url: &str) -> (r: Result<(), StoreError>)
        requires
            old(self)@.wf(),
        ensures
            final(self)@.wf(),
            match r {
                Ok(()) => !old(self)@.has_feed(alias@) && final(self)@ == (TablesView {
                    feeds: old(self)@.feeds.push(FeedView { url: url@, alias: alias@ }),
                    ..old(self)@
                }),
                Err(StoreError::DuplicateFeed { alias: a }) => old(self)@.has_feed(alias@) && a@
                    == alias@ && final(self)@ == old(self)@,
                Err(_) => false,
            },
    {
        let wanted = alias.to_owned();
        match self.feed_position(&wanted) {
            Some(_) => Err(StoreError::DuplicateFeed { alias: wanted }),
            None => {
                proof {
                    lemma_wf_with_feed(self@, FeedView { url: url@, alias: alias@ });
                }
                self.feeds.push(Feed { url: url.to_owned(), alias: wanted });
                assert(self@.feeds =~= old(self)@.feeds.push(FeedView { url: url@, alias: alias@ }));
                Ok(())
            },
        }
    }

    /// Says of each row whether it is the same filter as `key`.
    fn key_flags(&self, key: &FilterRow) -> (flags: Vec<bool>)
        ensures
            flags.len() == self@.filters.len(),
            forall|j: int|
                0 <= j < flags.len() ==> flags[j] == keyed(key@)(#[trigger] self@.filters[j]),
    {
        let mut flags: Vec<bool> = Vec::new();
        let mut i: usize = 0;
        while i < self.filters.len()
            invariant
                i <= self.filters.len(),
                flags.len() == i,
                forall|j: int| 0 <= j < i ==> flags[j] == keyed(key@)(#[trigger] self@.filters[j]),
            decreases self.filters.len() - i,
        {
            let row = &self.filters[i];
            let same = row.alias == key.alias && row.keywords == key.keywords && row.script_path
                == key.script_path;
            assert(same == same_key(self@.filters[i as int], key@));
            flags.push(same);
            i += 1;
        }
        flags
    }

    /// Says of each row whether a delete by `alias` and `wanted` may mean
    /// it.
    fn candidate_flags(&self, alias: &String, wanted: &[String]) -> (flags: Vec<bool>)
        ensures
            flags.len() == self@.filters.len(),
            forall|j: int|
                0 <= j < flags.len() ==> flags[j] == candidate(alias@, wanted.deep_view())(
                    #[trigger] self@.filters[j],
                ),
    {
        let mut flags: Vec<bool> = Vec::new();
        let mut i: usize = 0;
        while i < self.filters.len()
            invariant
                i <= self.filters.len(),
                flags.len() == i,
                forall|j: int|
                    0 <= j < i ==> flags[j] == candidate(alias@, wanted.deep_view())(
                        #[trigger] self@.filters[j],
                    ),
            decreases self.filters.len() - i,
        {
            let row = &self.filters[i];
            let mut meant = false;
            if row.alias == *alias {
                let have = decode_filter_keywords(row.keywords.as_str());
                meant = includes_all(&have, wanted);
            }
            assert(meant == candidate(alias@, wanted.deep_view())(self@.filters[i as int]));
            flags.push(meant);
            i += 1;
        }
        flags
    }

    /// Adds a filter, its keywords in their canonical encoding. Fails, and
    /// changes nothing, with `UnknownFeed` if there is no feed of the
    /// filter's alias, else with `DuplicateFilter` if a filter on that
    /// feed with the same encoded keywords and script is there already.
    pub fn store_filter(&mut self, filter: &Filter) -> (r: Result<(), StoreError>)
        requires
            old(self)@.wf(),
        ensures
            final(self)@.wf(),
            match r {
                Ok(()) => {
                    &&& old(self)@.has_feed(filter@.alias)
                    &&& !old(self)@.has_filter(row_of(filter@))
                    &&& final(self)@ == (TablesView {
                        filters: old(self)@.filters.push(row_of(filter@)),
                        ..old(self)@
                    })
                },
                Err(StoreError::UnknownFeed { alias }) => {
                    &&& !old(self)@.has_feed(filter@.alias)
                    &&& alias@ == filter@.alias
                    &&& final(self)@ == old(self)@
                },
                Err(StoreError::DuplicateFilter) => {
                    &&& old(self)@.has_feed(filter@.alias)
                    &&& old(self)@.has_filter(row_of(filter@))
                    &&& final(self)@ == old(self)@
                },
                Err(_) => false,
            },
    {
        if self.feed_position(&filter.alias).is_none() {
            return Err(StoreError::UnknownFeed { alias: filter.alias.clone() });
        }
        let row = FilterRow {
            alias: filter.alias.clone(),
            keywords: encode_filter_keywords(filter.keywords.as_slice()),
            script_path: filter.script_path.clone(),
            last_updated: filter.last_updated,
        };
        assert(row@ == row_of(filter@));
        let flags = self.key_flags(&row);
        let (count, _) = tally(&flags);
        proof {
            lemma_flags(self@.filters, keyed(row@), flags@);
            lemma_filter_rows_unique(self@, row@);
        }
        if count > 0 {
            return Err(StoreError::DuplicateFilter);
        }
        proof {
            lemma_wf_with_filter(self@, row@);
        }
        self.filters.push(row);
        assert(self@.filters =~= old(self)@.filters.push(row_of(filter@)));
        Ok(())
    }

    /// The filters, latest watermark first and filters that never ran
    /// last; filters of one watermark in the order in which they were
    /// added.
    pub fn fetch_filters(&self) -> (filters: Vec<Filter>)
        ensures
            filters.deep_view() == listed(self@.filters),
    {
        let ghost all = self@.filters.map_values(|row: FilterRowView| filter_of(row));
        let mut filters: Vec<Filter> = Vec::new();
        let mut i: usize = 0;
        proof {
            assert(all.take(0) =~= Seq::<FilterView>::empty());
            assert(filters.deep_view() =~= Seq::<FilterView>::empty());
        }
        while i < self.filters.len()
            invariant
                i <= self.filters.len(),
                all == self@.filters.map_values(|row: FilterRowView| filter_of(row)),
                filters.deep_view() == stable_sort(all.take(i as int), staler()),
            decreases self.filters.len() - i,
        {
            let row = &self.filters[i];
            let filter = Filter {
                alias: row.alias.clone(),
                keywords: decode_filter_keywords(row.keywords.as_str()),
                script_path: row.script_path.clone(),
                last_updated: row.last_updated,
            };
            assert(filter@ == all[i as int]);
            let ghost before = filters.deep_view();
            let mut p: usize = filters.len();
            while p > 0 && is_staler(&filters[p - 1].last_updated, &filter.last_updated)
                invariant
                    p <= filters.len(),
                    before == filters.deep_view(),
                    forall|k: int| p <= k < filters.len() ==> #[trigger] staler()(before[k], filter@),
                decreases p,
            {
                p -= 1;
            }
            proof {
                lemma_slot_is(before, filter@, staler(), p as int);
                assert(all.take(i + 1).drop_last() =~= all.take(i as int));
                assert(all.take(i + 1).last() == filter@);
            }
            filters.insert(p, filter);
            assert(filters.deep_view() =~= before.insert(p as int, all[i as int]));
            i += 1;
        }
        assert(all.take(self.filters.len() as int) =~= all);
        filters
    }

    /// Sets the watermark of the row that is this filter to the filter's
    /// watermark. Fails, and changes nothing, with `NoSuchFilter` if no
    /// row is this filter and with `CorruptState` if more than one is.
    pub fn update_filter(&mut self, filter: &Filter) -> (r: Result<(), StoreError>)
        requires
            old(self)@.wf(),
        ensures
            final(self)@.wf(),
            ({
                let rows = old(self)@.filters;
                let count = count_where(rows, keyed(row_of(filter@)));
                let at = first_where(rows, keyed(row_of(filter@)));
                match r {
                    Ok(()) => {
                        &&& count == 1
                        &&& 0 <= at < rows.len()
                        &&& final(self)@ == (TablesView {
                            filters: rows.update(
                                at,
                                FilterRowView { last_updated: filter@.last_updated, ..rows[at] },
                            ),
                            ..old(self)@
                        })
                    },
                    Err(StoreError::NoSuchFilter) => count == 0 && final(self)@ == old(self)@,
                    Err(StoreError::CorruptState) => count > 1 && final(self)@ == old(self)@,
                    Err(_) => false,
                }
            }),
    {
        let key = FilterRow {
            alias: filter.alias.clone(),
            keywords: encode_filter_keywords(filter.keywords.as_slice()),
            script_path: filter.script_path.clone(),
            last_updated: filter.last_updated,
        };
        assert(key@ == row_of(filter@));
        let flags = self.key_flags(&key);
        let (count, at) = tally(&flags);
        proof {
            lemma_flags(self@.filters, keyed(key@), flags@);
        }
        if count == 0 {
            return Err(StoreError::NoSuchFilter);
        }
        if count > 1 {
            return Err(StoreError::CorruptState);
        }
        proof {
            lemma_count_one(self@.filters, keyed(key@));
            lemma_first_where(self@.filters, keyed(key@));
            lemma_wf_with_watermark(self@, at as int, key@);
        }
        self.filters.set(at, key);
        assert(self@.filters =~= old(self)@.filters.update(at as int, key@));
        Ok(())
    }

    /// Deletes the one filter on the feed `alias` whose keywords include
    /// all of `keywords`. Fails, and changes nothing, with `NoMatch` if
    /// there is no such filter and with `AmbiguousMatch` if there is more
    /// than one.
    pub fn delete_filter(&mut self, alias: &str, keywords: &[String]) -> (r: Result<
        (),
        StoreError,
    >)
        requires
            old(self)@.wf(),
        ensures
            final(self)@.wf(),
            ({
                let rows = old(self)@.filters;
                let pick = candidate(alias@, keywords.deep_view());
                let count = count_where(rows, pick);
                let at = first_where(rows, pick);
                match r {
                    Ok(()) => {
                        &&& count == 1
                        &&& 0 <= at < rows.len()
                        &&& final(self)@ == (TablesView { filters: rows.remove(at), ..old(self)@ })
                    },
                    Err(StoreError::NoMatch { alias: a, keywords: k }) => {
                        &&& count == 0
                        &&& a@ == alias@
                        &&& k.deep_view() == keywords.deep_view()
                        &&& final(self)@ == old(self)@
                    },
                    Err(StoreError::AmbiguousMatch { alias: a, keywords: k }) => {
                        &&& count > 1
                        &&& a@ == alias@
                        &&& k.deep_view() == keywords.deep_view()
                        &&& final(self)@ == old(self)@
                    },
                    Err(_) => false,
                }
            }),
    {
        let wanted_alias = alias.to_owned();
        let flags = self.candidate_flags(&wanted_alias, keywords);
        let (count, at) = tally(&flags);
        proof {
            lemma_flags(self@.filters, candidate(alias@, keywords.deep_view()), flags@);
        }
        if count == 0 {
            return Err(
                StoreError::NoMatch { alias: wanted_alias, keywords: copy_strings(keywords) },
            );
        }
        if count > 1 {
            return Err(
                StoreError::AmbiguousMatch {
                    alias: wanted_alias,
                    keywords: copy_strings(keywords),
                },
            );
        }
        proof {
            lemma_count_one(self@.filters, candidate(alias@, keywords.deep_view()));
            lemma_wf_without_filter(self@, at as int);
        }
        self.filters.remove(at);
        assert(self@.filters =~= old(self)@.filters.remove(at as int));
        Ok(())
    }

    /// Deletes the feed of this alias. Fails, and changes nothing, with
    /// `NoSuchFeed` if there is none and with `FeedInUse` if a filter
    /// still refers to it.
    pub fn delete_feed(&mut self, alias: &str) -> (r: Result<(), StoreError>)
        requires
            old(self)@.wf(),
        ensures
            final(self)@.wf(),
            match r {
                Ok(()) => {
                    &&& old(self)@.has_feed(alias@)
                    &&& !old(self)@.feed_in_use(alias@)
                    &&& 0 <= old(self)@.feed_index(alias@) < old(self)@.feeds.len()
                    &&& final(self)@ == (TablesView {
                        feeds: old(self)@.feeds.remove(old(self)@.feed_index(alias@)),
                        ..old(self)@
                    })
                },
                Err(StoreError::NoSuchFeed { alias: a }) => {
                    &&& !old(self)@.has_feed(alias@)
                    &&& a@ == alias@
                    &&& final(self)@ == old(self)@
                },
                Err(StoreError::FeedInUse { alias: a }) => {
                    &&& old(self)@.has_feed(alias@)
                    &&& old(self)@.feed_in_use(alias@)
                    &&& a@ == alias@
                    &&& final(self)@ == old(self)@
                },
                Err(_) => false,
            },
    {
        let wanted = alias.to_owned();
        let at = match self.feed_position(&wanted) {
            Some(at) => at,
            None => {
                return Err(StoreError::NoSuchFeed { alias: wanted });
            },
        };
        let mut i: usize = 0;
        while i < self.filters.len()
            invariant
                i <= self.filters.len(),
                wanted@ == alias@,
                self@ == old(self)@,
                self@.wf(),
                self@.has_feed(alias@),
                forall|j: int| 0 <= j < i ==> (#[trigger] self@.filters[j]).alias != alias@,
            decreases self.filters.len() - i,
        {
            if self.filters[i].alias == wanted {
                assert(self@.filters[i as int].alias == alias@);
                return Err(StoreError::FeedInUse { alias: wanted });
            }
            i += 1;
        }
        proof {
            lemma_first_where(self@.feeds, named(alias@));
            let f = first_where(self@.feeds, named(alias@));
            if f != at {
                if f < self@.feeds.len() {
                    assert(self@.feeds[f].alias == self@.feeds[at as int].alias);
                } else {
                    assert(!named(alias@)(self@.feeds[at as int]));
                }
            }
            lemma_wf_without_feed(self@, at as int);
        }
        self.feeds.remove(at);
        assert(self@.feeds =~= old(self)@.feeds.remove(at as int));
        Ok(())
    }

    /// The feeds, in the order in which they were added.
    pub fn fetch_feeds(&self) -> (feeds: Vec<Feed>)
        ensures
            feeds.deep_view() == self@.feeds,
    {
        clone_feeds(&self.feeds)
    }
}

} // verus!
