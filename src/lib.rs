//! A versioned document store for a wiki: pages are text files whose every
//! write is also a commit in a git object database, with point-in-time reads,
//! per-page history and a repository-wide changelog.

pub mod auth;
pub mod config;
pub mod datetime;
pub mod error;
pub mod git;
pub mod models;
pub mod pages;
pub mod paths;
pub mod snapshot;
pub mod storage;
pub mod utils;
