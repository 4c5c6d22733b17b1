//! Feed entries: what a feed's items must hold to be acted on, and the
//! order in which they are handed on.

use crate::order::{lemma_slot_is, lemma_stable_sort, ranks, stable_sort};
use crate::time::{instant_of, rfc2822_instant, Timestamp};
use vstd::prelude::*;
use vstd::seq_lib::*;

verus! {

/// An item as the feed parser found it: each field may be missing.
#[derive(Debug, PartialEq, Eq)]
pub struct RawItem {
    pub title: Option<String>,
    pub link: Option<String>,
    /// The publish date as the feed writes it, in the feed date format.
    pub pub_date: Option<String>,
}

/// What a raw item holds.
pub struct RawItemView {
    pub title: Option<Seq<char>>,
    pub link: Option<Seq<char>>,
    pub pub_date: Option<Seq<char>>,
}

/// A feed entry with all that an action needs.
#[derive(Debug, PartialEq, Eq)]
pub struct FeedEntry {
    pub title: String,
    pub link: String,
    pub pub_date: Timestamp,
}

/// What a feed entry holds.
pub struct FeedEntryView {
    pub title: Seq<char>,
    pub link: Seq<char>,
    pub pub_date: Timestamp,
}

/// Why an item is no entry.
#[derive(Clone, Copy, Debug, PartialEq, Eq, Structural)]
pub enum EntryError {
    /// The title is missing or empty.
    MissingTitle,
    /// The link is missing or empty.
    MissingLink,
    /// The publish date is missing.
    MissingDate,
    /// The publish date is not in the feed date format.
    BadDate,
}

/// Why a feed's items are not acted on: this many of them are no entries.
#[derive(Clone, Copy, Debug, PartialEq, Eq, Structural)]
pub struct DataError {
    pub invalid: usize,
}

/// Why a feed's bytes give no entries.
#[derive(Clone, Copy, Debug, PartialEq, Eq, Structural)]
pub enum FeedFault {
    /// The bytes are no feed.
    Parse,
    /// The bytes are a feed, but this many of its items are no entries.
    Data { invalid: usize },
}

/// What the feed parser makes of a feed's bytes: its items in the order of
/// the feed, or `None` if the bytes are no feed.
pub uninterp spec fn feed_items(bytes: Seq<u8>) -> Option<Seq<RawItemView>>;

/// An error of the feed parser.
#[verifier::external_type_specification]
#[verifier::external_body]
pub struct ExFeedParseError(rss::Error);

/// What an optional string holds.
pub open spec fn text_of(s: Option<String>) -> Option<Seq<char>> {
    match s {
        Some(s) => Some(s@),
        None => None,
    }
}

impl View for RawItem {
    type V = RawItemView;

    open spec fn view(&self) -> RawItemView {
        RawItemView {
            title: text_of(self.title),
            link: text_of(self.link),
            pub_date: text_of(self.pub_date),
        }
    }
}

impl DeepView for RawItem {
    type V = RawItemView;

    open spec fn deep_view(&self) -> RawItemView {
        self@
    }
}

impl View for FeedEntry {
    type V = FeedEntryView;

    open spec fn view(&self) -> FeedEntryView {
        FeedEntryView { title: self.title@, link: self.link@, pub_date: self.pub_date }
    }
}

impl DeepView for FeedEntry {
    type V = FeedEntryView;

    open spec fn deep_view(&self) -> FeedEntryView {
        self@
    }
}

impl Clone for FeedEntry {
    fn clone(&self) -> (r: FeedEntry)
        ensures
            r@ == self@,
    {
        FeedEntry { title: self.title.clone(), link: self.link.clone(), pub_date: self.pub_date }
    }
}

/// The entry that an item gives, where `date` is what the feed date format
/// makes of the item's publish date: the item must have a title and a link
/// that are not empty, and a publish date that the format can read.
pub open spec fn entry_from(item: RawItemView, date: Option<Timestamp>) -> Result<
    FeedEntryView,
    EntryError,
> {
    if item.title is None || item.title->0.len() == 0 {
        Err(EntryError::MissingTitle)
    } else if item.link is None || item.link->0.len() == 0 {
        Err(EntryError::MissingLink)
    } else if item.pub_date is None {
        Err(EntryError::MissingDate)
    } else if date is None {
        Err(EntryError::BadDate)
    } else {
        Ok(FeedEntryView { title: item.title->0, link: item.link->0, pub_date: date->0 })
    }
}

/// The instant that an item's publish date names, if it has one that the
/// feed date format can read.
pub open spec fn item_date(item: RawItemView) -> Option<Timestamp> {
    match item.pub_date {
        Some(text) => instant_of(rfc2822_instant(text)),
        None => None,
    }
}

/// The entry that an item gives.
pub open spec fn entry_of(item: RawItemView) -> Result<FeedEntryView, EntryError> {
    entry_from(item, item_date(item))
}

/// What the result of making an entry holds.
pub open spec fn entry_outcome(r: Result<FeedEntry, EntryError>) -> Result<
    FeedEntryView,
    EntryError,
> {
    match r {
        Ok(entry) => Ok(entry@),
        Err(e) => Err(e),
    }
}

/// The predicate that picks the items that are no entries.
pub open spec fn is_invalid() -> spec_fn(RawItemView) -> bool {
    |item: RawItemView| entry_of(item) is Err
}

/// The entries that items give, one each, in the items' order; meant for
/// items that all are entries.
pub open spec fn entries_of(items: Seq<RawItemView>) -> Seq<FeedEntryView> {
    items.map_values(|item: RawItemView| entry_of(item)->Ok_0)
}

/// The relation by which entries are sorted: `a` comes after `b` if it was
/// published later.
pub open spec fn later() -> spec_fn(FeedEntryView, FeedEntryView) -> bool {
    |a: FeedEntryView, b: FeedEntryView| b.pub_date.is_before(a.pub_date)
}

/// The entries in ascending order of publish date, entries of one date in
/// the order they had.
pub open spec fn by_date(entries: Seq<FeedEntryView>) -> Seq<FeedEntryView> {
    stable_sort(entries, later())
}

/// No entry comes before one that was published earlier.
pub open spec fn dates_ascend(entries: Seq<FeedEntryView>) -> bool {
    forall|i: int, j: int|
        0 <= i < j < entries.len() ==> entries[i].pub_date.is_not_after(entries[j].pub_date)
}

/// Sorting by date puts the entries in ascending order of publish date and
/// neither adds nor drops any.
pub proof fn lemma_by_date(entries: Seq<FeedEntryView>)
    ensures
        dates_ascend(by_date(entries)),
        by_date(entries).to_multiset() == entries.to_multiset(),
        by_date(entries).len() == entries.len(),
{
    assert(ranks(later()));
    lemma_stable_sort(entries, later());
    let sorted = by_date(entries);
    assert forall|i: int, j: int| 0 <= i < j < sorted.len() implies sorted[i].pub_date.is_not_after(
        sorted[j].pub_date,
    ) by {
        assert(!later()(sorted[i], sorted[j]));
    }
}

/// What a feed's items give: all their entries in ascending order of
/// publish date, or, if any item is no entry, the number of such items and
/// no entry at all.
pub open spec fn validated(items: Seq<RawItemView>) -> Result<Seq<FeedEntryView>, nat> {
    let invalid = items.filter(is_invalid()).len();
    if invalid > 0 {
        Err(invalid)
    } else {
        Ok(by_date(entries_of(items)))
    }
}

/// What a feed's bytes give, where `parsed` is what the feed parser makes
/// of them.
pub open spec fn feed_outcome(parsed: Option<Seq<RawItemView>>) -> Result<
    Seq<FeedEntryView>,
    FeedFault,
> {
    match parsed {
        None => Err(FeedFault::Parse),
        Some(items) => match validated(items) {
            Ok(entries) => Ok(entries),
            Err(invalid) => Err(FeedFault::Data { invalid: invalid as usize }),
        },
    }
}

impl FeedEntry {
    /// The entry that an item gives; the publish date is read in the feed
    /// date format.
    pub fn new(entry: &RawItem) -> (r: Result<FeedEntry, EntryError>)
        ensures
            entry_outcome(r) == entry_of(entry@),
    {
        let date = match &entry.pub_date {
            Some(text) => Timestamp::from_rfc2822(text.as_str()),
            None => None,
        };
        FeedEntry::with_date(entry, date)
    }

    /// The entry that an item gives, where `date` is what the feed date
    /// format makes of the item's publish date.
    pub fn with_date(entry: &RawItem, date: Option<Timestamp>) -> (r: Result<FeedEntry, EntryError>)
        ensures
            entry_outcome(r) == entry_from(entry@, date),
    {
        let title = match &entry.title {
            Some(title) => title,
            None => {
                return Err(EntryError::MissingTitle);
            },
        };
        if title.as_str().is_empty() {
            return Err(EntryError::MissingTitle);
        }
        let link = match &entry.link {
            Some(link) => link,
            None => {
                return Err(EntryError::MissingLink);
            },
        };
        if link.as_str().is_empty() {
            return Err(EntryError::MissingLink);
        }
        if entry.pub_date.is_none() {
            return Err(EntryError::MissingDate);
        }
        match date {
            Some(pub_date) => Ok(FeedEntry { title: title.clone(), link: link.clone(), pub_date }),
            None => Err(EntryError::BadDate),
        }
    }
}

impl EntryError {
    /// The error in words.
    pub open spec fn text(self) -> Seq<char> {
        match self {
            EntryError::MissingTitle => "Entry title is missing."@,
            EntryError::MissingLink => "Entry link is missing."@,
            EntryError::MissingDate => "Entry pub date is missing."@,
            EntryError::BadDate => "Entry pub date did not parse correctly."@,
        }
    }

    /// The error in words.
    pub fn message(&self) -> (r: String)
        ensures
            r@ == self.text(),
    {
        match self {
            EntryError::MissingTitle => "Entry title is missing.".to_owned(),
            EntryError::MissingLink => "Entry link is missing.".to_owned(),
            EntryError::MissingDate => "Entry pub date is missing.".to_owned(),
            EntryError::BadDate => "Entry pub date did not parse correctly.".to_owned(),
        }
    }
}

/// Sorts entries by publish date, ascending; entries of one date keep
/// their order.
pub fn sort_entries(entries: Vec<FeedEntry>) -> (sorted: Vec<FeedEntry>)
    ensures
        sorted.deep_view() == by_date(entries.deep_view()),
        dates_ascend(sorted.deep_view()),
{
    let ghost all = entries.deep_view();
    let ghost source = entries@;
    let mut sorted: Vec<FeedEntry> = Vec::new();
    proof {
        assert(all.take(0) =~= Seq::<FeedEntryView>::empty());
        assert(sorted.deep_view() =~= Seq::<FeedEntryView>::empty());
    }
    for entry in it: entries
        invariant
            it.seq() == source,
            all.len() == source.len(),
            forall|k: int| 0 <= k < source.len() ==> all[k] == (#[trigger] source[k])@,
            sorted.deep_view() == by_date(all.take(it.index())),
    {
        let ghost done = all.take(it.index());
        let ghost before = sorted.deep_view();
        let mut p: usize = sorted.len();
        while p > 0 && entry.pub_date.before(&sorted[p - 1].pub_date)
            invariant
                p <= sorted.len(),
                before == sorted.deep_view(),
                forall|k: int| p <= k < sorted.len() ==> #[trigger] later()(before[k], entry@),
            decreases p,
        {
            p -= 1;
        }
        proof {
            lemma_slot_is(before, entry@, later(), p as int);
            assert(all.take(it.index() + 1).drop_last() =~= done);
            assert(all.take(it.index() + 1).last() == entry@);
        }
        sorted.insert(p, entry);
        assert(sorted.deep_view() =~= before.insert(p as int, entry@));
    }
    proof {
        assert(all.take(all.len() as int) =~= all);
        lemma_by_date(all);
    }
    sorted
}

/// The entries of a feed's items in ascending order of publish date. If
/// any item is no entry, the feed gives none: the error counts the items
/// that are not.
pub fn validate(items: &Vec<RawItem>) -> (r: Result<Vec<FeedEntry>, DataError>)
    ensures
        r matches Ok(entries) ==> dates_ascend(entries.deep_view()),
        match r {
            Ok(entries) => validated(items.deep_view()) == Ok::<Seq<FeedEntryView>, nat>(
                entries.deep_view(),
            ),
            Err(e) => validated(items.deep_view()) == Err::<Seq<FeedEntryView>, nat>(
                e.invalid as nat,
            ),
        },
{
    let ghost all = items.deep_view();
    let mut entries: Vec<FeedEntry> = Vec::new();
    let mut invalid: usize = 0;
    let mut i: usize = 0;
    proof {
        assert(all.take(0) =~= Seq::<RawItemView>::empty());
        assert(all.take(0).filter(is_invalid()) =~= Seq::<RawItemView>::empty()) by {
            reveal(Seq::filter);
        }
        assert(entries.deep_view() =~= entries_of(all.take(0)));
    }
    while i < items.len()
        invariant
            all == items.deep_view(),
            i <= items.len(),
            invalid <= i,
            invalid == all.take(i as int).filter(is_invalid()).len(),
            invalid == 0 ==> entries.deep_view() == entries_of(all.take(i as int)),
        decreases items.len() - i,
    {
        proof {
            assert(all.take(i + 1) =~= all.take(i as int).push(all[i as int]));
            all.take(i as int).lemma_filter_push(all[i as int], is_invalid());
            assert(all[i as int] == items[i as int]@);
        }
        let ghost before = entries.deep_view();
        match FeedEntry::new(&items[i]) {
            Ok(entry) => {
                if invalid == 0 {
                    entries.push(entry);
                    assert(entries.deep_view() =~= before.push(entry@));
                    assert(entries_of(all.take(i + 1)) =~= entries_of(all.take(i as int)).push(
                        entry@,
                    ));
                }
            },
            Err(_) => {
                invalid += 1;
            },
        }
        i += 1;
    }
    assert(all.take(items.len() as int) =~= all);
    if invalid > 0 {
        Err(DataError { invalid })
    } else {
        Ok(sort_entries(entries))
    }
}

/// The entries that a feed's bytes give, in ascending order of publish
/// date: `Parse` if the bytes are no feed, `Data` if any item is no entry.
pub fn read_feed(bytes: &[u8]) -> (r: Result<Vec<FeedEntry>, FeedFault>)
    ensures
        r matches Ok(entries) ==> dates_ascend(entries.deep_view()),
        match r {
            Ok(entries) => feed_outcome(feed_items(bytes@)) == Ok::<Seq<FeedEntryView>, FeedFault>(
                entries.deep_view(),
            ),
            Err(fault) => feed_outcome(feed_items(bytes@)) == Err::<Seq<FeedEntryView>, FeedFault>(
                fault,
            ),
        },
{
    match parse_channel(bytes) {
        Err(_) => Err(FeedFault::Parse),
        Ok(items) => match validate(&items) {
            Ok(entries) => Ok(entries),
            Err(e) => Err(FeedFault::Data { invalid: e.invalid }),
        },
    }
}

/// `rss::Channel::read_from` on the bytes, with each item of the channel
/// handed back as its title, link and publish date. The parser is a
/// function of the bytes alone; the contract names what it returns and
/// claims no more.
#[verifier::external_body]
fn parse_channel(bytes: &[u8]) -> (r: Result<Vec<RawItem>, rss::Error>)
    ensures
        r is Ok <==> feed_items(bytes@) is Some,
        r matches Ok(items) ==> feed_items(bytes@) == Some(items.deep_view()),
{
    match rss::Channel::read_from(bytes) {
        Ok(channel) => Ok(
            channel.into_items().into_iter().map(
                |item| RawItem { title: item.title, link: item.link, pub_date: item.pub_date },
            ).collect(),
        ),
        Err(e) => Err(e),
    }
}

} // verus!
