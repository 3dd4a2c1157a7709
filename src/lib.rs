//! Cross-source correlation of scheduled earnings announcements.
//!
//! Several independent sources each report the companies that announce
//! earnings on a given day. This crate decides how those sources are queried
//! and retried, resolves the target day, and merges the per-source listings
//! into ranked candidates: a company is trusted only when enough distinct
//! sources report it.

pub mod company;
pub mod correlation;
mod grouping;
pub mod correlation_laws;
pub mod sources;
pub mod fetch;
pub mod calendar;
pub mod navigation;
pub mod listing;
pub mod report;
