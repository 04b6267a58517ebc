//! The directory tree: how entries are named and numbered, the inode table
//! as a mathematical value, and the tree that answers the directory
//! protocol.

pub mod file;
pub mod table;
pub mod xkcd_fs;
