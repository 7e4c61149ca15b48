//! Crawling creators: what to read of a creator, what to do with it, and in
//! which order creators are crawled.

pub mod content;
pub mod crawl_laws;
pub mod jobs;
pub mod run;
