//! Harvesting of devil records from wiki markup: the listing walk, the
//! per-devil detail extractor, the recursive ability-tree parser and the
//! bookkeeping of the bounded worker pool that runs the detail fetches.

pub mod abilities;
pub mod config;
pub mod detail;
pub mod dom;
pub mod graphql;
pub mod harvest;
pub mod listing;
pub mod models;
pub mod pattern;
pub mod report;
pub mod services;
pub mod text;
