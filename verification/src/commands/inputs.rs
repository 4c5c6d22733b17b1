//! The commands.

use crate::models::feed::Feed;
use crate::models::filter::Filter;
use vstd::prelude::*;

verus! {

/// Lists the feeds.
#[derive(Debug, PartialEq, Eq)]
pub struct ListFeedsCmd;

/// Lists the filters.
#[derive(Debug, PartialEq, Eq)]
pub struct ListFiltersCmd;

/// Adds a feed.
#[derive(Debug, PartialEq, Eq)]
pub struct AddFeedCmd(pub Feed);

/// Adds a filter.
#[derive(Debug, PartialEq, Eq)]
pub struct AddFilterCmd(pub Filter);

/// Runs an update pass.
#[derive(Debug, PartialEq, Eq)]
pub struct UpdateCmd;

/// Deletes a filter: the feed's alias, and keywords to tell the filter by.
#[derive(Debug, PartialEq, Eq)]
pub struct DeleteFilterCmd(pub String, pub Vec<String>);

/// Deletes a feed: the feed's alias.
#[derive(Debug, PartialEq, Eq)]
pub struct DeleteFeedCmd(pub String);

impl DeleteFilterCmd {
    /// The command that deletes the filter on the feed `alias` that holds
    /// the keywords `filters`.
    pub fn new(alias: &str, filters: &[&str]) -> (cmd: DeleteFilterCmd)
        ensures
            cmd.0@ == alias@,
            cmd.1.deep_view() == filters.deep_view(),
    {
        let mut keywords: Vec<String> = Vec::new();
        let mut i: usize = 0;
        while i < filters.len()
            invariant
                i <= filters.len(),
                keywords.len() == i,
                forall|j: int| 0 <= j < i ==> keywords[j]@ == filters[j]@,
            decreases filters.len() - i,
        {
            keywords.push(filters[i].to_owned());
            i += 1;
        }
        assert(keywords.deep_view() =~= filters.deep_view());
        DeleteFilterCmd(alias.to_owned(), keywords)
    }
}

} // verus!
