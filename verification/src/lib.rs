//! Core of a test-data downloader for an online judge.
//!
//! The library holds the verified logic: the account-rotation rate
//! limiter, the memoizing verdict cache, the probe planning and the
//! decoding of judge verdicts into test metadata and reconstructed
//! test contents.  Network transport, template rendering and the
//! interactive shell live outside the library and talk to it through
//! plain values.

pub mod account;
pub mod cache;
pub mod config;
pub mod downloader;
pub mod encoding;
pub mod judge;
pub mod problem;
pub mod random;
pub mod retry;
pub mod submitter;
pub mod text;
pub mod types;
pub mod verdict;
