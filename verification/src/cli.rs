//! The arguments of the two commands, as plain values.

use crate::calendar::{Date, TimeOfDay};
use crate::text::{chars_of, push_str, string_of};
use crate::transcript::{line_offset, stamp_at, STAMP_LEN};
use vstd::prelude::*;

verus! {

/// The arguments of the `update` command.
#[derive(Debug)]
pub struct UpdateArgs {
    /// The file whose timestamps are adjusted.
    pub file: String,
    /// The directory below which the output is written.
    pub output_dir: Option<String>,
    /// Whether the output is written flat, into the working directory.
    pub flat: bool,
    /// The time of day at which the recording began.
    pub time: TimeOfDay,
    /// The date on which the recording began.
    pub date: Date,
}

/// The arguments of the `merge` command.
#[derive(Debug)]
pub struct MergeArgs {
    /// The files or patterns to merge.
    pub patterns: Vec<String>,
    /// The output file, if the inferred one is not wanted.
    pub output: Option<String>,
    /// Whether the segments are kept after the merge.
    pub no_delete: bool,
}

/// One of the two commands with its arguments.
#[derive(Debug)]
pub enum Commands {
    /// Adjust the timestamps of one file.
    Update(UpdateArgs),
    /// Merge segments in chronological order.
    Merge(MergeArgs),
}

/// The command line.
#[derive(Debug)]
pub struct Cli {
    pub command: Commands,
}

/// The time of day that `value` spells as `HH:MM:SS`, if it spells one and
/// holds nothing else.
pub open spec fn clock_of(value: Seq<char>) -> Option<int> {
    if value.len() == STAMP_LEN {
        line_offset(value)
    } else {
        None
    }
}

/// The message for a value that is no time of day.
pub open spec fn invalid_time_message(value: Seq<char>) -> Seq<char> {
    "Invalid time '"@ + value + "'. Use HH:MM:SS (e.g. 18:06:13)."@
}

/// Reads a time of day written as `HH:MM:SS`.
pub fn parse_hms(value: &str) -> (r: Result<TimeOfDay, String>)
    ensures
        match clock_of(value@) {
            Some(secs) => r matches Ok(t) && t@ == secs,
            None => r matches Err(message) && message@ == invalid_time_message(value@),
        },
{
    let chars = chars_of(value);
    if chars.len() == STAMP_LEN {
        assert(chars@.subrange(0, chars@.len() as int) =~= value@);
        if let Some(time) = stamp_at(&chars, 0, STAMP_LEN) {
            return Ok(time);
        }
    }
    let mut message = chars_of("Invalid time '");
    push_str(&mut message, value);
    push_str(&mut message, "'. Use HH:MM:SS (e.g. 18:06:13).");
    Err(string_of(&message))
}

} // verus!
