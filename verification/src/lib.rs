//! Verified core of a Pixiv crawling-and-archiving pipeline.
//!
//! The library holds the pipeline's decision logic: URL construction for the
//! platform's private JSON API, response-envelope handling, pagination state
//! machines for series / bookmark / follow listings, content-list assembly,
//! comment-text formatting, tag scoping, the per-run author-deduplication
//! cache, and the persistence planning that commits a post only after every
//! one of its files has been placed. The surrounding process (HTTP transport,
//! the archive store, channels and progress bars) drives these functions and
//! performs the I/O they decide on.

pub mod api;
pub mod archive;
pub mod artwork;
pub mod comment;
pub mod config;
pub mod favorite;
pub mod file;
pub mod series;
pub mod tag;
pub mod text;
pub mod user;
