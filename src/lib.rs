//! Copies eligible media files into date-named folders and remembers, across
//! runs, which files it has already handled.
//!
//! The library holds the decisions: which names are eligible, whether a file
//! was seen before, what the date folder is called, and how the per-run
//! counters move. Walking directories and moving bytes is left to the caller.

pub mod bucket;
pub mod classifier;
pub mod history;
pub mod session;

pub use bucket::{bucket_name, bucket_name_for_date};
pub use classifier::{is_supported_file, Classifier};
pub use history::{History, Timestamp};
pub use session::{EntryInfo, Session, Step};
