//! Commands on the store, and what they put out.

pub mod inputs;
pub mod outputs;

pub use crate::update::report::{FeedFailure, UpdateOutput};
pub use inputs::{
    AddFeedCmd, AddFilterCmd, DeleteFeedCmd, DeleteFilterCmd, ListFeedsCmd, ListFiltersCmd,
    UpdateCmd,
};
pub use outputs::{
    AddFeedOutput, AddFilterOutput, ConsoleOutput, DeleteFeedOutput, DeleteFilterOutput,
    ListFeedsOutput, ListFiltersOutput,
};

use crate::db::tables::{row_of, RSSActionsDb, RSSActionsTx, StoreError, TablesView};
use crate::db::transaction::{candidate, listed};
use crate::find::{count_where, first_where};
use crate::models::filter::clone_strings;
use vstd::prelude::*;

verus! {

/// A command that one transaction carries out.
pub trait RSSActionCmd {
    /// What the command puts out.
    type CmdOutput;

    /// What the command makes of the store: the tables as it leaves them,
    /// or `None` if it is refused.
    spec fn applied(&self, store: TablesView) -> Option<TablesView>;

    /// Whether `output` is what the command puts out when it succeeds on
    /// the store.
    spec fn puts_out(&self, store: TablesView, output: Self::CmdOutput) -> bool;

    /// Carries out the command in a transaction of its own, which is
    /// committed if the command succeeds and dropped if it is refused.
    fn execute(&self, db: &mut RSSActionsDb) -> (r: Result<Self::CmdOutput, StoreError>)
        requires
            old(db)@.wf(),
        ensures
            final(db)@.wf(),
            match self.applied(old(db)@) {
                Some(next) => r is Ok && final(db)@ == next,
                None => r is Err && final(db)@ == old(db)@,
            },
            r matches Ok(output) ==> self.puts_out(old(db)@, output),
    {
        let mut tx = db.transaction();
        let result = self.action(&mut tx);
        if result.is_ok() {
            tx.commit(db);
        }
        result
    }

    /// Carries out the command in the transaction. A command that is
    /// refused changes nothing.
    fn action(&self, tx: &mut RSSActionsTx) -> (r: Result<Self::CmdOutput, StoreError>)
        requires
            old(tx)@.wf(),
        ensures
            final(tx)@.wf(),
            match self.applied(old(tx)@) {
                Some(next) => r is Ok && final(tx)@ == next,
                None => r is Err && final(tx)@ == old(tx)@,
            },
            r matches Ok(output) ==> self.puts_out(old(tx)@, output),
    ;
}

impl RSSActionCmd for ListFeedsCmd {
    type CmdOutput = ListFeedsOutput;

    open spec fn applied(&self, store: TablesView) -> Option<TablesView> {
        Some(store)
    }

    open spec fn puts_out(&self, store: TablesView, output: ListFeedsOutput) -> bool {
        output.feeds.deep_view() == store.feeds
    }

    fn action(&self, tx: &mut RSSActionsTx) -> (r: Result<ListFeedsOutput, StoreError>)
        ensures
            r is Ok,
    {
        let feeds = tx.fetch_feeds();
        Ok(ListFeedsOutput { feeds })
    }
}

impl RSSActionCmd for AddFeedCmd {
    type CmdOutput = AddFeedOutput;

    open spec fn applied(&self, store: TablesView) -> Option<TablesView> {
        if store.has_feed(self.0@.alias) {
            None
        } else {
            Some(TablesView { feeds: store.feeds.push(self.0@), ..store })
        }
    }

    open spec fn puts_out(&self, store: TablesView, output: AddFeedOutput) -> bool {
        output.0@ == self.0@
    }

    fn action(&self, tx: &mut RSSActionsTx) -> (r: Result<AddFeedOutput, StoreError>)
        ensures
            match r {
                Ok(_) => true,
                Err(StoreError::DuplicateFeed { alias }) => alias@ == self.0@.alias,
                Err(_) => false,
            },
    {
        let feed = &self.0;
        match tx.store_feed(feed.alias.as_str(), feed.url.as_str()) {
            Ok(()) => Ok(AddFeedOutput(feed.clone())),
            Err(e) => Err(e),
        }
    }
}

impl RSSActionCmd for ListFiltersCmd {
    type CmdOutput = ListFiltersOutput;

    open spec fn applied(&self, store: TablesView) -> Option<TablesView> {
        Some(store)
    }

    open spec fn puts_out(&self, store: TablesView, output: ListFiltersOutput) -> bool {
        output.filters.deep_view() == listed(store.filters)
    }

    fn action(&self, tx: &mut RSSActionsTx) -> (r: Result<ListFiltersOutput, StoreError>)
        ensures
            r is Ok,
    {
        let filters = tx.fetch_filters();
        Ok(ListFiltersOutput { filters })
    }
}

impl RSSActionCmd for AddFilterCmd {
    type CmdOutput = AddFilterOutput;

    open spec fn applied(&self, store: TablesView) -> Option<TablesView> {
        if store.has_feed(self.0@.alias) && !store.has_filter(row_of(self.0@)) {
            Some(TablesView { filters: store.filters.push(row_of(self.0@)), ..store })
        } else {
            None
        }
    }

    open spec fn puts_out(&self, store: TablesView, output: AddFilterOutput) -> bool {
        output.0@ == self.0@
    }

    fn action(&self, tx: &mut RSSActionsTx) -> (r: Result<AddFilterOutput, StoreError>)
        ensures
            match r {
                Ok(_) => true,
                Err(StoreError::UnknownFeed { alias }) => !old(tx)@.has_feed(self.0@.alias)
                    && alias@ == self.0@.alias,
                Err(StoreError::DuplicateFilter) => old(tx)@.has_feed(self.0@.alias),
                Err(_) => false,
            },
    {
        let filter = &self.0;
        match tx.store_filter(filter) {
            Ok(()) => Ok(AddFilterOutput(filter.clone())),
            Err(e) => Err(e),
        }
    }
}

impl RSSActionCmd for DeleteFilterCmd {
    type CmdOutput = DeleteFilterOutput;

    open spec fn applied(&self, store: TablesView) -> Option<TablesView> {
        let pick = candidate(self.0@, self.1.deep_view());
        if count_where(store.filters, pick) == 1 {
            Some(
                TablesView {
                    filters: store.filters.remove(first_where(store.filters, pick)),
                    ..store
                },
            )
        } else {
            None
        }
    }

    open spec fn puts_out(&self, store: TablesView, output: DeleteFilterOutput) -> bool {
        output.0@ == self.0@ && output.1.deep_view() == self.1.deep_view()
    }

    fn action(&self, tx: &mut RSSActionsTx) -> (r: Result<DeleteFilterOutput, StoreError>)
        ensures
            match r {
                Ok(_) => true,
                Err(StoreError::NoMatch { .. }) => count_where(
                    old(tx)@.filters,
                    candidate(self.0@, self.1.deep_view()),
                ) == 0,
                Err(StoreError::AmbiguousMatch { .. }) => count_where(
                    old(tx)@.filters,
                    candidate(self.0@, self.1.deep_view()),
                ) > 1,
                Err(_) => false,
            },
    {
        match tx.delete_filter(self.0.as_str(), self.1.as_slice()) {
            Ok(()) => Ok(DeleteFilterOutput(self.0.clone(), clone_strings(&self.1))),
            Err(e) => Err(e),
        }
    }
}

impl RSSActionCmd for DeleteFeedCmd {
    type CmdOutput = DeleteFeedOutput;

    open spec fn applied(&self, store: TablesView) -> Option<TablesView> {
        if store.has_feed(self.0@) && !store.feed_in_use(self.0@) {
            Some(TablesView { feeds: store.feeds.remove(store.feed_index(self.0@)), ..store })
        } else {
            None
        }
    }

    open spec fn puts_out(&self, store: TablesView, output: DeleteFeedOutput) -> bool {
        output.0@ == self.0@
    }

    fn action(&self, tx: &mut RSSActionsTx) -> (r: Result<DeleteFeedOutput, StoreError>)
        ensures
            match r {
                Ok(_) => true,
                Err(StoreError::NoSuchFeed { alias }) => !old(tx)@.has_feed(self.0@) && alias@
                    == self.0@,
                Err(StoreError::FeedInUse { alias }) => old(tx)@.feed_in_use(self.0@) && alias@
                    == self.0@,
                Err(_) => false,
            },
    {
        match tx.delete_feed(self.0.as_str()) {
            Ok(()) => Ok(DeleteFeedOutput(self.0.clone())),
            Err(e) => Err(e),
        }
    }
}

} // verus!
