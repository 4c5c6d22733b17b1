//! The two tables, what must hold of them, and how a transaction starts
//! and ends.

use crate::db::keywords::{decoded_keywords, encoded_keywords};
use crate::models::feed::{Feed, FeedView};
use crate::models::filter::FilterView;
use crate::text::{join, join_strings};
use crate::time::Timestamp;
use vstd::prelude::*;
use vstd::string::*;

verus! {

/// A row of the filters table.
#[derive(Debug, PartialEq, Eq)]
pub struct FilterRow {
    /// The alias of the feed that the filter is on.
    pub alias: String,
    /// The filter's keywords in their canonical encoding.
    pub keywords: String,
    pub script_path: String,
    pub last_updated: Option<Timestamp>,
}

/// What a row of the filters table holds.
pub struct FilterRowView {
    pub alias: Seq<char>,
    pub keywords: Seq<char>,
    pub script_path: Seq<char>,
    pub last_updated: Option<Timestamp>,
}

/// What the two tables hold: the feeds and the filter rows, each in the
/// order in which they were added.
pub struct TablesView {
    pub feeds: Seq<FeedView>,
    pub filters: Seq<FilterRowView>,
}

/// The store: the tables as the last committed transaction left them.
/// Every store and every transaction that this library hands out is well
/// formed (`TablesView::wf`), and every operation keeps it so.
pub struct RSSActionsDb {
    pub(crate) feeds: Vec<Feed>,
    pub(crate) filters: Vec<FilterRow>,
}

/// A transaction: a working copy of the tables, with every operation of
/// the store as a method. What it holds reaches the store when it is
/// committed, and is lost when it is dropped.
pub struct RSSActionsTx {
    pub(crate) feeds: Vec<Feed>,
    pub(crate) filters: Vec<FilterRow>,
}

/// Why an operation of the store is refused.
#[derive(Debug, PartialEq, Eq)]
pub enum StoreError {
    /// A feed of this alias is there already.
    DuplicateFeed { alias: String },
    /// There is no feed of this alias to delete.
    NoSuchFeed { alias: String },
    /// A filter still refers to the feed of this alias.
    FeedInUse { alias: String },
    /// There is no feed of this alias for the filter to refer to.
    UnknownFeed { alias: String },
    /// A filter on the same feed with the same keywords and script is
    /// there already.
    DuplicateFilter,
    /// No filter on the feed holds all of the keywords.
    NoMatch { alias: String, keywords: Vec<String> },
    /// More than one filter on the feed holds all of the keywords.
    AmbiguousMatch { alias: String, keywords: Vec<String> },
    /// No row has the filter's feed, keywords and script.
    NoSuchFilter,
    /// More than one row has the filter's feed, keywords and script.
    CorruptState,
}

impl View for FilterRow {
    type V = FilterRowView;

    open spec fn view(&self) -> FilterRowView {
        FilterRowView {
            alias: self.alias@,
            keywords: self.keywords@,
            script_path: self.script_path@,
            last_updated: self.last_updated,
        }
    }
}

impl DeepView for FilterRow {
    type V = FilterRowView;

    open spec fn deep_view(&self) -> FilterRowView {
        self@
    }
}

impl Clone for FilterRow {
    fn clone(&self) -> (r: FilterRow)
        ensures
            r@ == self@,
    {
        FilterRow {
            alias: self.alias.clone(),
            keywords: self.keywords.clone(),
            script_path: self.script_path.clone(),
            last_updated: self.last_updated,
        }
    }
}

/// The row under which a filter is stored.
pub open spec fn row_of(filter: FilterView) -> FilterRowView {
    FilterRowView {
        alias: filter.alias,
        keywords: encoded_keywords(filter.keywords),
        script_path: filter.script_path,
        last_updated: filter.last_updated,
    }
}

/// The filter that a row stores.
pub open spec fn filter_of(row: FilterRowView) -> FilterView {
    FilterView {
        alias: row.alias,
        keywords: decoded_keywords(row.keywords),
        script_path: row.script_path,
        last_updated: row.last_updated,
    }
}

/// Two rows are the same filter: they agree in feed, encoded keywords and
/// script.
pub open spec fn same_key(a: FilterRowView, b: FilterRowView) -> bool {
    a.alias == b.alias && a.keywords == b.keywords && a.script_path == b.script_path
}

/// The predicate that picks the feed of this alias.
pub open spec fn named(alias: Seq<char>) -> spec_fn(FeedView) -> bool {
    |feed: FeedView| feed.alias == alias
}

impl TablesView {
    /// The tables without any row.
    pub open spec fn empty() -> TablesView {
        TablesView { feeds: Seq::empty(), filters: Seq::empty() }
    }

    /// A feed of this alias is in the feeds table.
    pub open spec fn has_feed(self, alias: Seq<char>) -> bool {
        exists|i: int| 0 <= i < self.feeds.len() && (#[trigger] self.feeds[i]).alias == alias
    }

    /// Where the feed of this alias stands in the feeds table, or the
    /// number of feeds if there is none.
    pub open spec fn feed_index(self, alias: Seq<char>) -> int {
        crate::find::first_where(self.feeds, named(alias))
    }

    /// A row of the filters table refers to the feed of this alias.
    pub open spec fn feed_in_use(self, alias: Seq<char>) -> bool {
        exists|i: int| 0 <= i < self.filters.len() && (#[trigger] self.filters[i]).alias == alias
    }

    /// A row of the filters table is the same filter as `row`.
    pub open spec fn has_filter(self, row: FilterRowView) -> bool {
        exists|i: int| 0 <= i < self.filters.len() && same_key(#[trigger] self.filters[i], row)
    }

    /// What the store keeps true of its tables: no two feeds share an
    /// alias, every filter refers to a feed that is there, and no two rows
    /// are the same filter.
    pub open spec fn wf(self) -> bool {
        &&& forall|i: int, j: int|
            0 <= i < j < self.feeds.len() ==> (#[trigger] self.feeds[i]).alias != (
            #[trigger] self.feeds[j]).alias
        &&& forall|i: int| 0 <= i < self.filters.len() ==> self.has_feed((#[trigger] self.filters[i]).alias)
        &&& forall|i: int, j: int|
            0 <= i < j < self.filters.len() ==> !same_key(
                #[trigger] self.filters[i],
                #[trigger] self.filters[j],
            )
    }
}

/// A copy of a list of feeds.
pub fn clone_feeds(list: &Vec<Feed>) -> (r: Vec<Feed>)
    ensures
        r.deep_view() == list.deep_view(),
{
    let mut r: Vec<Feed> = Vec::new();
    let mut i: usize = 0;
    while i < list.len()
        invariant
            i <= list.len(),
            r.len() == i,
            forall|j: int| 0 <= j < i ==> r[j]@ == list[j]@,
        decreases list.len() - i,
    {
        r.push(list[i].clone());
        i += 1;
    }
    assert(r.deep_view() =~= list.deep_view());
    r
}

/// A copy of a list of rows.
fn clone_rows(list: &Vec<FilterRow>) -> (r: Vec<FilterRow>)
    ensures
        r.deep_view() == list.deep_view(),
{
    let mut r: Vec<FilterRow> = Vec::new();
    let mut i: usize = 0;
    while i < list.len()
        invariant
            i <= list.len(),
            r.len() == i,
            forall|j: int| 0 <= j < i ==> r[j]@ == list[j]@,
        decreases list.len() - i,
    {
        r.push(list[i].clone());
        i += 1;
    }
    assert(r.deep_view() =~= list.deep_view());
    r
}

impl View for RSSActionsDb {
    type V = TablesView;

    open(crate) spec fn view(&self) -> TablesView {
        TablesView { feeds: self.feeds.deep_view(), filters: self.filters.deep_view() }
    }
}

impl View for RSSActionsTx {
    type V = TablesView;

    open(crate) spec fn view(&self) -> TablesView {
        TablesView { feeds: self.feeds.deep_view(), filters: self.filters.deep_view() }
    }
}

impl RSSActionsDb {
    /// A store with empty tables, kept in memory.
    pub fn open_in_memory() -> (db: RSSActionsDb)
        ensures
            db@ == TablesView::empty(),
            db@.wf(),
    {
        let db = RSSActionsDb { feeds: Vec::new(), filters: Vec::new() };
        assert(db@.feeds =~= Seq::<FeedView>::empty());
        assert(db@.filters =~= Seq::<FilterRowView>::empty());
        db
    }

    /// Starts a transaction on what the store holds.
    pub fn transaction(&self) -> (tx: RSSActionsTx)
        ensures
            tx@ == self@,
    {
        RSSActionsTx { feeds: clone_feeds(&self.feeds), filters: clone_rows(&self.filters) }
    }
}

impl RSSActionsTx {
    /// Ends the transaction: the store holds what the transaction held.
    pub fn commit(self, db: &mut RSSActionsDb)
        ensures
            final(db)@ == self@,
    {
        let RSSActionsTx { feeds, filters } = self;
        *db = RSSActionsDb { feeds, filters };
    }
}

impl StoreError {
    /// The error in words.
    pub open spec fn text(self) -> Seq<char> {
        match self {
            StoreError::DuplicateFeed { alias } => "Failed to insert feed "@ + alias@
                + " into db: UNIQUE constraint failed: feeds.alias"@,
            StoreError::NoSuchFeed { alias } => "No feed was found to delete that matches name `"@
                + alias@ + "`"@,
            StoreError::FeedInUse { alias } => "Failed to delete feed "@ + alias@
                + " in db: FOREIGN KEY constraint failed"@,
            StoreError::UnknownFeed { alias } => "Couldn't find a feed with alias "@ + alias@
                + "."@,
            StoreError::DuplicateFilter =>
                "You can't add another filter with the same feed alias, keyword, and script path."@,
            StoreError::NoMatch { alias, keywords } => "No filters matching `"@ + join(
                keywords.deep_view(),
                ","@,
            ) + "` on the feed `"@ + alias@ + "` were found in the database."@,
            StoreError::AmbiguousMatch { alias, keywords } => "Multiple filters matching `"@
                + join(keywords.deep_view(), ","@) + "` on the feed `"@ + alias@
                + "` were found in the database."@,
            StoreError::NoSuchFilter =>
                "No filter was found to update that matches the filter's feed, keywords and script."@,
            StoreError::CorruptState =>
                "More than one filter was updated when updating a filter."@,
        }
    }

    /// The error in words.
    pub fn message(&self) -> (r: String)
        ensures
            r@ == self.text(),
    {
        match self {
            StoreError::DuplicateFeed { alias } => String::from_str(
                "Failed to insert feed ",
            ).concat(alias.as_str()).concat(" into db: UNIQUE constraint failed: feeds.alias"),
            StoreError::NoSuchFeed { alias } => String::from_str(
                "No feed was found to delete that matches name `",
            ).concat(alias.as_str()).concat("`"),
            StoreError::FeedInUse { alias } => String::from_str(
                "Failed to delete feed ",
            ).concat(alias.as_str()).concat(" in db: FOREIGN KEY constraint failed"),
            StoreError::UnknownFeed { alias } => String::from_str(
                "Couldn't find a feed with alias ",
            ).concat(alias.as_str()).concat("."),
            StoreError::DuplicateFilter => String::from_str(
                "You can't add another filter with the same feed alias, keyword, and script path.",
            ),
            StoreError::NoMatch { alias, keywords } => String::from_str(
                "No filters matching `",
            ).concat(join_strings(keywords, ",").as_str()).concat("` on the feed `").concat(
                alias.as_str(),
            ).concat("` were found in the database."),
            StoreError::AmbiguousMatch { alias, keywords } => String::from_str(
                "Multiple filters matching `",
            ).concat(join_strings(keywords, ",").as_str()).concat("` on the feed `").concat(
                alias.as_str(),
            ).concat("` were found in the database."),
            StoreError::NoSuchFilter => String::from_str(
                "No filter was found to update that matches the filter's feed, keywords and script.",
            ),
            StoreError::CorruptState => String::from_str(
                "More than one filter was updated when updating a filter.",
            ),
        }
    }
}

} // verus!
