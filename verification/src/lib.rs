//! Verified core of a small image-batch downloader.
//!
//! The library resolves a target endpoint into remote document addresses,
//! turns decoded documents into download work lists, and models the
//! bounded-concurrency batch that fetches and persists each work item.
//! All network and file I/O lives outside the library; the logic here is
//! verified.

pub mod addrs;
pub mod board;
pub mod downloader;
pub mod errors;
pub mod extract;
pub mod json;
pub mod jsonmodel;
pub mod strutil;
pub mod thread;
