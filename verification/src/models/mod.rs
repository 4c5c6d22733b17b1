//! The records that the store keeps: feeds, and the filters on them.

pub mod feed;
pub mod filter;

pub use feed::{Feed, FeedError, FeedView};
pub use filter::{Filter, FilterError, FilterView, ScriptFile};
