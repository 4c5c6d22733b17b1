//! The update pass: download, validate, match, act, persist.

pub mod entry;
pub mod laws;
pub mod matching;
pub mod pass;
pub mod plan;
pub mod report;
pub mod script;
pub mod watermarks;

pub use entry::{
    read_feed, sort_entries, validate, DataError, EntryError, FeedEntry, FeedFault, RawItem,
};
pub use matching::{process_single_filter, FilterPlan};
pub use pass::{
    update, Download, Stage, UpdateAction, UpdateError, UpdateEvent, UpdatePass,
};
pub use plan::{join_feeds_and_filters, plan_pass, Plan};
pub use report::{FeedFailure, UpdateOutput};
pub use script::{ProcessOutput, ScriptCall, ScriptResult};
