//! Severity levels and the minimum-severity filter.
//!
//! `Level` orders record severities most-severe-first (`Error` > `Warn` >
//! `Info` > `Debug` > `Trace`); `LevelFilter` adds `Off` below every level.
//! A record passes a filter exactly when its level's rank does not exceed
//! the filter's rank, with `Error` ranked 1 and `Trace` ranked 5.

use vstd::prelude::*;

verus! {

/// Severity of a single record, most severe first.
#[derive(Clone, Copy, PartialEq, Eq, Structural, Debug)]
pub enum Level {
    Error,
    Warn,
    Info,
    Debug,
    Trace,
}

/// Minimum-severity configuration: `Off` suppresses everything.
#[derive(Clone, Copy, PartialEq, Eq, Structural, Debug)]
pub enum LevelFilter {
    Off,
    Error,
    Warn,
    Info,
    Debug,
    Trace,
}

/// Rank of a level: 1 for the most severe (`Error`), 5 for the least.
pub open spec fn level_rank(level: Level) -> int {
    match level {
        Level::Error => 1,
        Level::Warn => 2,
        Level::Info => 3,
        Level::Debug => 4,
        Level::Trace => 5,
    }
}

/// Rank of a filter: 0 for `Off`, otherwise the rank of its level.
pub open spec fn filter_rank(filter: LevelFilter) -> int {
    match filter {
        LevelFilter::Off => 0,
        LevelFilter::Error => 1,
        LevelFilter::Warn => 2,
        LevelFilter::Info => 3,
        LevelFilter::Debug => 4,
        LevelFilter::Trace => 5,
    }
}

/// A record at `level` passes `filter` iff its rank does not exceed the
/// filter's rank: every level at least as severe as the filter is enabled.
pub open spec fn level_passes(level: Level, filter: LevelFilter) -> bool {
    level_rank(level) <= filter_rank(filter)
}

impl Level {
    fn rank(self) -> (r: u8)
        ensures
            r == level_rank(self),
    {
        match self {
            Level::Error => 1,
            Level::Warn => 2,
            Level::Info => 3,
            Level::Debug => 4,
            Level::Trace => 5,
        }
    }

    /// Whether a record at this level passes the given minimum-severity
    /// filter.
    pub fn passes(self, filter: LevelFilter) -> (r: bool)
        ensures
            r == level_passes(self, filter),
    {
        self.rank() <= filter.rank()
    }
}

impl LevelFilter {
    fn rank(self) -> (r: u8)
        ensures
            r == filter_rank(self),
    {
        match self {
            LevelFilter::Off => 0,
            LevelFilter::Error => 1,
            LevelFilter::Warn => 2,
            LevelFilter::Info => 3,
            LevelFilter::Debug => 4,
            LevelFilter::Trace => 5,
        }
    }
}

} // verus!
