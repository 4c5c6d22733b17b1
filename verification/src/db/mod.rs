//! The store of feeds and filters: two tables, each change made inside a
//! transaction and kept only when the transaction is committed.

pub mod keywords;
pub mod tables;
pub mod transaction;

pub use keywords::{decode_filter_keywords, encode_filter_keywords};
pub use tables::{FilterRow, FilterRowView, RSSActionsDb, RSSActionsTx, StoreError, TablesView};
