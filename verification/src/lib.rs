//! A minimal logging backend: filters records by severity and renders each
//! enabled record as a single line prefixed with a UTC calendar timestamp.
//!
//! The timestamp is computed from raw seconds-since-epoch by a verified
//! civil-calendar conversion; the formatting of the line is verified down to
//! the exact sequence of characters.

use vstd::prelude::*;

pub mod level;
pub mod render;
pub mod timestamp;

use crate::level::{Level, LevelFilter, level_passes};
use crate::render::{
    level_tag_spec, location_spec, thread_suffix_spec, opt_chars, push_level_tag, location,
    push_thread_suffix,
};
use crate::timestamp::Timestamp;

verus! {

/// One rendered line: timestamp, a space, the level tag, a space, the
/// bracketed location with its thread suffix, a space, and the message.
pub open spec fn line_spec(
    ts: Timestamp,
    level: Level,
    colors: bool,
    target: Seq<char>,
    path: Option<Seq<char>>,
    thread_name: Option<Seq<char>>,
    message: Seq<char>,
) -> Seq<char> {
    ts.render_spec() + seq![' '] + level_tag_spec(level, colors) + seq![' ', '['] + location_spec(
        target,
        path,
    ) + thread_suffix_spec(thread_name) + seq![']', ' '] + message
}

/// The log sink's configuration: a minimum severity and a color switch.
/// Fixed once built; emission decisions and formatting read it only.
pub struct PicoLogger {
    pub level: LevelFilter,
    pub colors: bool,
}

impl PicoLogger {
    /// Create (but not install) a sink that emits records at least as
    /// severe as `level`, with colors on.
    pub fn new(level: LevelFilter) -> (r: Self)
        ensures
            r.level == level,
            r.colors == true,
    {
        PicoLogger { level, colors: true }
    }

    /// Enable or disable colors, keeping the severity filter.
    pub fn with_colors(self, colors: bool) -> (r: Self)
        ensures
            r.level == self.level,
            r.colors == colors,
    {
        PicoLogger { level: self.level, colors }
    }

    /// Whether a record at `level` passes this sink's severity filter.
    /// Side-effect free: the emission decision and nothing else.
    pub fn enabled(&self, level: Level) -> (r: bool)
        ensures
            r == level_passes(level, self.level),
    {
        level.passes(self.level)
    }

    /// Decide and format in one step: `None` exactly when the record's
    /// level fails the filter, otherwise the complete output line for the
    /// record at instant `ts`.
    pub fn format_record(
        &self,
        ts: &Timestamp,
        level: Level,
        target: &str,
        path: Option<&str>,
        thread_name: Option<&str>,
        message: &str,
    ) -> (r: Option<String>)
        requires
            ts.wf(),
        ensures
            r is Some <==> level_passes(level, self.level),
            r matches Some(line) ==> line@ == line_spec(
                *ts,
                level,
                self.colors,
                target@,
                opt_chars(path),
                opt_chars(thread_name),
                message@,
            ),
    {
        if !self.enabled(level) {
            return None;
        }
        proof {
            reveal_strlit(" ");
            reveal_strlit(" [");
            reveal_strlit("] ");
        }
        let mut out = ts.render();
        out.append(" ");
        push_level_tag(&mut out, level, self.colors);
        out.append(" [");
        out.append(location(target, path));
        push_thread_suffix(&mut out, thread_name);
        out.append("] ");
        out.append(message);
        assert(out@ =~= line_spec(
            *ts,
            level,
            self.colors,
            target@,
            opt_chars(path),
            opt_chars(thread_name),
            message@,
        ));
        Some(out)
    }
}

} // verus!
