//! Run hook runners (pre-commit, prek, lefthook, hk) against the bookmark
//! updates that a jj push would make, and decide from their outcomes whether
//! the push may proceed.

pub mod cli;
pub mod text;
pub mod error;
pub mod runner;
pub mod bookmark_updates;
pub mod hooks;
pub mod push;
pub mod revset;
pub mod toml_doc;
pub mod init;
