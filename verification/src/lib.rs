//! A verified core for a polite web crawler.
//!
//! The crate holds the crawler's logic: link extraction and normalization,
//! the phrase matcher that gates expansion, the visited-set and frontier
//! bookkeeping, and the two traversal engines (unconditional depth-first
//! expansion and depth-bounded, phrase-gated breadth-first expansion).
//! Network requests and file sinks live outside the library; the traversal
//! engines are driven step by step with the outcome of each fetch.

pub mod config;
pub mod emails;
pub mod fetch;
pub mod links;
pub mod matcher;
pub mod probes;
pub mod robots;
pub mod scripts;
pub mod text;
pub mod traversal;
pub mod urlset;
