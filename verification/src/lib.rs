//! Feed filters that run an action for each new matching entry.
//!
//! A store keeps feeds and, on each feed, filters: keywords, a script, and
//! a watermark. An update pass downloads the feeds, finds for each filter
//! the entries that are newer than its watermark and hold its keywords,
//! runs the filter's script on each, and moves the watermark. This library
//! decides; its caller downloads, runs the scripts and keeps the store on
//! disk.

pub mod cli;
pub mod commands;
pub mod config;
pub mod db;
pub mod find;
pub mod models;
pub mod order;
pub mod text;
pub mod time;
pub mod update;

pub use cli::{RSSActionCLICmd, RSSActionsArgs, SubArg};
pub use commands::{
    AddFeedCmd, AddFeedOutput, AddFilterCmd, AddFilterOutput, ConsoleOutput, DeleteFeedCmd,
    DeleteFeedOutput, DeleteFilterCmd, DeleteFilterOutput, FeedFailure, ListFeedsCmd,
    ListFeedsOutput, ListFiltersCmd, ListFiltersOutput, RSSActionCmd, UpdateCmd, UpdateOutput,
};
pub use config::Config;
pub use db::{
    decode_filter_keywords, encode_filter_keywords, FilterRow, RSSActionsDb, RSSActionsTx,
    StoreError,
};
pub use models::{Feed, FeedError, Filter, FilterError, ScriptFile};
pub use time::Timestamp;
pub use update::{
    update, Download, FeedEntry, ProcessOutput, RawItem, ScriptCall, ScriptResult, Stage,
    UpdateAction, UpdateError, UpdateEvent, UpdatePass,
};
