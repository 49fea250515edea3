//! The query history.

pub mod cursor;
pub mod endpoints;
pub mod get_history;
pub mod laws;

pub use self::cursor::HistoryCursor;
pub use self::endpoints::{HistoryParams, HistoryReply, QueryReply};
pub use self::get_history::get_history;
