//! Watches a file-index site for newly listed files: reads its results pages,
//! remembers which files were already reported, leaves out files whose names
//! hold ignored keywords, and groups the rest into notifications of bounded
//! size.
pub mod config;
pub mod dbree;
pub mod discover;
pub mod notify;
pub mod seen;
pub mod text;
