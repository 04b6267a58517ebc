//! A read-only projection of a numbered comic archive as a directory tree.
//!
//! The crate holds the logic of the projection: how inodes and names are
//! derived, how the inode table is built and answers lookups, attribute
//! queries, reads and listings, and how a document is resolved from a local
//! cache with a fallback to the remote source. Everything that touches the
//! disk, the network or the mount point lives with the caller.

pub mod api;
pub mod cache_aside;
pub mod date;
pub mod decimal;
pub mod fs;
pub mod resolution;
pub mod storage;
pub mod xkcd;
