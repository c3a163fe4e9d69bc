//! Shared value types of the service.

use vstd::prelude::*;

verus! {

/// The lifetime class of a link record.
pub enum LinkType {
    /// Short-lived.
    INTERIM,
    /// Long-lived.
    PERSIST,
}

impl LinkType {
    /// The numeric code stored for this class.
    pub fn to_value(&self) -> (r: i32)
        ensures
            r == (match self {
                LinkType::INTERIM => 1int,
                LinkType::PERSIST => 2int,
            }),
    {
        match self {
            LinkType::INTERIM => 1,
            LinkType::PERSIST => 2,
        }
    }
}

/// Health data of the cleanup job, updated after each completed cycle.
#[derive(Clone, Copy, PartialEq, Eq, Structural, Debug)]
pub struct CleanupStats {
    /// When the last cycle ran, as a Unix timestamp; `None` before the first.
    pub last_cleanup_time: Option<i64>,
    /// How many records the last cycle retired.
    pub last_cleanup_count: usize,
    /// How many cycles have completed.
    pub total_cleanup_runs: u64,
    /// How many records all cycles together retired.
    pub total_cleaned: u64,
}

impl Default for CleanupStats {
    fn default() -> (r: Self)
        ensures
            r == (CleanupStats {
                last_cleanup_time: None::<i64>,
                last_cleanup_count: 0usize,
                total_cleanup_runs: 0u64,
                total_cleaned: 0u64,
            }),
    {
        CleanupStats {
            last_cleanup_time: None,
            last_cleanup_count: 0,
            total_cleanup_runs: 0,
            total_cleaned: 0,
        }
    }
}

} // verus!
