//! How often each command of a project was run, for the "Frequently Used"
//! category.
pub mod storage;

pub use storage::{ProjectUsage, UsageEntry, FREQUENTLY_USED_CATEGORY, MAX_FREQUENT_COMMANDS};
