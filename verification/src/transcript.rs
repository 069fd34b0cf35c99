//! Re-anchoring the relative timestamps of one transcript.
//!
//! A transcript is a text whose lines may begin with a relative time
//! `HH:MM:SS`. Adjusting it replaces each such prefix by the wall-clock time
//! that lies that far after an anchor, and leaves every other line alone.

use crate::calendar::{
    clock_text, lemma_next_is_later, seconds_of, CivilDate, CivilDateTime, Date, DateTime,
    TimeOfDay, SECONDS_PER_DAY,
};
use crate::text::{
    char_is_digit, chars_of, is_digit, push_range, read_two_digits, string_of, two_digit_value,
    two_digits,
};
use vstd::prelude::*;

verus! {

/// The length of a time stamp `HH:MM:SS`.
pub const STAMP_LEN: usize = 8;

/// Whether `line` begins with two digits, a colon, two digits, a colon and
/// two digits.
pub open spec fn has_clock_shape(line: Seq<char>) -> bool {
    &&& line.len() >= STAMP_LEN
    &&& is_digit(line[0])
    &&& is_digit(line[1])
    &&& line[2] == ':'
    &&& is_digit(line[3])
    &&& is_digit(line[4])
    &&& line[5] == ':'
    &&& is_digit(line[6])
    &&& is_digit(line[7])
}

/// The relative time that `line` begins with, in seconds, if it begins with
/// one: the shape of [`has_clock_shape`] with an hour below 24 and minute and
/// second below 60.
pub open spec fn line_offset(line: Seq<char>) -> Option<int> {
    if has_clock_shape(line) && two_digit_value(line, 0) < 24 && two_digit_value(line, 3) < 60
        && two_digit_value(line, 6) < 60 {
        Some(
            seconds_of(
                two_digit_value(line, 0),
                two_digit_value(line, 3),
                two_digit_value(line, 6),
            ),
        )
    } else {
        None
    }
}

/// The wall-clock timestamp that lies `offset` seconds after the time
/// `start` (in seconds from midnight) on `date`: the time of day wraps at
/// midnight and the date moves on by the days that were passed.
pub open spec fn absolute(date: CivilDate, start: int, offset: int) -> CivilDateTime {
    CivilDateTime {
        date: date.plus_days(((start + offset) / (SECONDS_PER_DAY as int)) as nat),
        secs: (start + offset) % (SECONDS_PER_DAY as int),
    }
}

/// The position of the first line feed in `s`, or the length of `s` if it
/// holds none.
pub open spec fn first_newline(s: Seq<char>) -> nat
    decreases s.len(),
{
    if s.len() == 0 || s[0] == '\n' {
        0
    } else {
        1 + first_newline(s.skip(1))
    }
}

/// The lines of a text. A line ends at a line feed or at the end of the
/// text; the line feed is not part of the line, every other character is,
/// a carriage return too, and an empty rest after the last line feed is no
/// line.
pub open spec fn lines_of(text: Seq<char>) -> Seq<Seq<char>>
    decreases text.len(),
{
    if text.len() == 0 {
        Seq::empty()
    } else {
        let n = first_newline(text);
        if n >= text.len() {
            seq![text]
        } else {
            seq![text.take(n as int)] + lines_of(text.skip(n as int + 1))
        }
    }
}

/// The lines joined by single line feeds.
pub open spec fn join_lines(lines: Seq<Seq<char>>) -> Seq<char>
    decreases lines.len(),
{
    if lines.len() == 0 {
        Seq::empty()
    } else if lines.len() == 1 {
        lines[0]
    } else {
        lines[0] + seq!['\n'] + join_lines(lines.skip(1))
    }
}

/// Whether the text ends with a line feed.
pub open spec fn ends_with_newline(text: Seq<char>) -> bool {
    text.len() > 0 && text.last() == '\n'
}

/// The number of line feeds in the text.
pub open spec fn newline_count(text: Seq<char>) -> nat
    decreases text.len(),
{
    if text.len() == 0 {
        0
    } else {
        newline_count(text.drop_last()) + (if text.last() == '\n' {
            1nat
        } else {
            0nat
        })
    }
}

/// A line after adjustment: a time stamp at its start is replaced by the
/// time of day that lies that far after `start`; a line without one is
/// unchanged.
pub open spec fn adjusted_line(line: Seq<char>, start: int) -> Seq<char> {
    match line_offset(line) {
        Some(offset) => clock_text((start + offset) % (SECONDS_PER_DAY as int)) + line.skip(
            STAMP_LEN as int,
        ),
        None => line,
    }
}

/// Each of the lines after adjustment.
pub open spec fn adjusted_lines(lines: Seq<Seq<char>>, start: int) -> Seq<Seq<char>> {
    Seq::new(lines.len(), |i: int| adjusted_line(lines[i], start))
}

/// A whole text after adjustment: its lines, each adjusted, joined by line
/// feeds, with a final line feed exactly if the text had one.
pub open spec fn adjusted_text(text: Seq<char>, start: int) -> Seq<char> {
    join_lines(adjusted_lines(lines_of(text), start)) + (if ends_with_newline(text) {
        seq!['\n']
    } else {
        Seq::empty()
    })
}

/// The absolute timestamp of one line, as a sequence: empty if the line
/// carries no time stamp.
pub open spec fn stamp_of_line(line: Seq<char>, date: CivilDate, start: int) -> Seq<CivilDateTime> {
    match line_offset(line) {
        Some(offset) => seq![absolute(date, start, offset)],
        None => Seq::empty(),
    }
}

/// The absolute timestamps of the lines that carry a time stamp, in the
/// order of the lines.
pub open spec fn line_stamps(lines: Seq<Seq<char>>, date: CivilDate, start: int) -> Seq<
    CivilDateTime,
>
    decreases lines.len(),
{
    if lines.len() == 0 {
        Seq::empty()
    } else {
        stamp_of_line(lines[0], date, start) + line_stamps(lines.skip(1), date, start)
    }
}

/// Whether the timestamp after position `i` is earlier than the one at `i`.
pub open spec fn steps_back(stamps: Seq<CivilDateTime>, i: int) -> bool {
    0 <= i < stamps.len() - 1 && stamps[i + 1].lt(stamps[i])
}

/// Whether some timestamp is strictly earlier than the one right before it.
pub open spec fn has_backward_step(stamps: Seq<CivilDateTime>) -> bool {
    exists|i: int| steps_back(stamps, i)
}

/// Whether the time stamp of `line`, if it has one, lies before midnight
/// when it is counted from `start`.
pub open spec fn stays_in_day(line: Seq<char>, start: int) -> bool {
    match line_offset(line) {
        Some(offset) => start + offset < SECONDS_PER_DAY,
        None => true,
    }
}

/// Whether every timestamp of `text` falls on a date of the calendar: on
/// the last date of the calendar no time stamp may pass midnight.
pub open spec fn fits_calendar(text: Seq<char>, date: CivilDate, start: int) -> bool {
    date.is_last() ==> forall|i: int|
        0 <= i < lines_of(text).len() ==> stays_in_day(#[trigger] lines_of(text)[i], start)
}

/// The relative time stamp at the start of `chars[from..to]`.
pub(crate) fn stamp_at(chars: &Vec<char>, from: usize, to: usize) -> (r: Option<TimeOfDay>)
    requires
        from <= to <= chars.len(),
    ensures
        r is Some <==> line_offset(chars@.subrange(from as int, to as int)) is Some,
        r matches Some(t) ==> line_offset(chars@.subrange(from as int, to as int)) == Some(t@),
{
    let ghost line = chars@.subrange(from as int, to as int);
    if to - from < STAMP_LEN {
        return None;
    }
    assert(forall|i: int| 0 <= i < 8 ==> line[i] == chars@[from + i]);
    if !(char_is_digit(chars[from]) && char_is_digit(chars[from + 1]) && chars[from + 2] == ':'
        && char_is_digit(chars[from + 3]) && char_is_digit(chars[from + 4]) && chars[from + 5]
        == ':' && char_is_digit(chars[from + 6]) && char_is_digit(chars[from + 7])) {
        return None;
    }
    let hour = read_two_digits(chars, from);
    let minute = read_two_digits(chars, from + 3);
    let second = read_two_digits(chars, from + 6);
    TimeOfDay::from_hms_opt(hour, minute, second)
}

/// Splits a line into the relative time that it begins with and the rest
/// of the line, if it begins with a time stamp.
pub fn parse_timestamp_line(line: &str) -> (r: Option<(TimeOfDay, String)>)
    ensures
        r is Some <==> line_offset(line@) is Some,
        r matches Some(p) ==> line_offset(line@) == Some(p.0@) && p.1@ == line@.skip(
            STAMP_LEN as int,
        ),
{
    let chars = chars_of(line);
    assert(chars@.subrange(0, chars@.len() as int) == chars@);
    match stamp_at(&chars, 0, chars.len()) {
        Some(time) => {
            let mut rest: Vec<char> = Vec::new();
            push_range(&mut rest, &chars, STAMP_LEN, chars.len());
            assert(rest@ == line@.skip(STAMP_LEN as int));
            Some((time, string_of(&rest)))
        },
        None => None,
    }
}

/// The timestamp that lies the time `relative` after `start` on
/// `effective_date`: the time of day is the sum of the two, less one day
/// if it passes midnight, and the date is then the following day.
///
/// Where the sum passes midnight the date must have a successor.
pub fn apply_offset(start: TimeOfDay, effective_date: Date, relative: TimeOfDay) -> (r: DateTime)
    requires
        effective_date@.is_last() ==> start@ + relative@ < SECONDS_PER_DAY,
    ensures
        r@ == absolute(effective_date@, start@, relative@),
        r@.secs == (start@ + relative@) % (SECONDS_PER_DAY as int),
        r@.date == effective_date@.plus_days(
            ((start@ + relative@) / (SECONDS_PER_DAY as int)) as nat,
        ),
{
    reveal_with_fuel(CivilDate::plus_days, 2);
    let total: u32 = start.num_seconds_from_midnight() + relative.num_seconds_from_midnight();
    if total < SECONDS_PER_DAY {
        let time = TimeOfDay::from_num_seconds_from_midnight_opt(total).unwrap();
        DateTime::new(effective_date, time)
    } else {
        let date = effective_date.succ_opt().unwrap();
        let time = TimeOfDay::from_num_seconds_from_midnight_opt(total - SECONDS_PER_DAY).unwrap();
        DateTime::new(date, time)
    }
}

/// The result of adjusting one transcript.
#[derive(Debug, Clone, PartialEq, Eq)]
pub struct TranscriptUpdate {
    /// The adjusted text.
    pub body: String,
    /// The absolute timestamp of the first line that carries a time stamp.
    pub first_timestamp: DateTime,
    /// The absolute timestamp of the last line that carries a time stamp.
    pub last_timestamp: DateTime,
    /// Whether some timestamp is earlier than the one before it.
    pub has_out_of_order_timestamps: bool,
}

/// Why a transcript could not be adjusted.
#[derive(Debug, Clone, Copy, PartialEq, Eq, Structural)]
pub enum TranscriptError {
    /// No line of the text begins with a time stamp.
    NoTimestamps,
}

impl TranscriptError {
    /// The message that describes the error.
    pub fn message(&self) -> (r: String)
        ensures
            r@ == "No timestamped lines were found in the input file"@,
    {
        "No timestamped lines were found in the input file".to_owned()
    }
}

/// The adjusted text, read off the text line by line.
spec fn rendered(text: Seq<char>, start: int) -> Seq<char>
    decreases text.len(),
{
    if text.len() == 0 {
        Seq::empty()
    } else {
        let n = first_newline(text);
        if n >= text.len() {
            adjusted_line(text, start)
        } else {
            adjusted_line(text.take(n as int), start) + seq!['\n'] + rendered(
                text.skip(n as int + 1),
                start,
            )
        }
    }
}

proof fn lemma_first_newline_is(s: Seq<char>, k: int)
    requires
        0 <= k <= s.len(),
        forall|i: int| 0 <= i < k ==> s[i] != '\n',
        k == s.len() || s[k] == '\n',
    ensures
        first_newline(s) == k,
    decreases s.len(),
{
    if k > 0 {
        lemma_first_newline_is(s.skip(1), k - 1);
    }
}

proof fn lemma_first_newline_found(s: Seq<char>)
    ensures
        first_newline(s) <= s.len(),
        forall|i: int| 0 <= i < first_newline(s) ==> s[i] != '\n',
        first_newline(s) < s.len() ==> s[first_newline(s) as int] == '\n',
    decreases s.len(),
{
    if s.len() == 0 || s[0] == '\n' {
    } else {
        lemma_first_newline_found(s.skip(1));
        assert forall|i: int| 0 <= i < first_newline(s) implies s[i] != '\n' by {
            if i > 0 {
                assert(s[i] == s.skip(1)[i - 1]);
            }
        }
    }
}

proof fn lemma_lines_nonempty(text: Seq<char>)
    requires
        text.len() > 0,
    ensures
        lines_of(text).len() > 0,
{
}

proof fn lemma_rendered(text: Seq<char>, start: int)
    ensures
        rendered(text, start) == adjusted_text(text, start),
    decreases text.len(),
{
    if text.len() == 0 {
        assert(adjusted_lines(lines_of(text), start) =~= Seq::empty());
    } else {
        let n = first_newline(text) as int;
        lemma_first_newline_found(text);
        if n >= text.len() {
            assert(adjusted_lines(seq![text], start) =~= seq![adjusted_line(text, start)]);
            assert(!ends_with_newline(text));
        } else {
            let line = text.take(n);
            let rest = text.skip(n + 1);
            lemma_rendered(rest, start);
            let tail = lines_of(rest);
            let all = adjusted_lines(lines_of(text), start);
            assert(lines_of(text) == seq![line] + tail);
            assert(all =~= seq![adjusted_line(line, start)] + adjusted_lines(tail, start));
            if rest.len() == 0 {
                assert(all =~= seq![adjusted_line(line, start)]);
                assert(adjusted_lines(tail, start) =~= Seq::empty());
                assert(ends_with_newline(text));
                assert(rendered(text, start) =~= adjusted_text(text, start));
            } else {
                lemma_lines_nonempty(rest);
                assert(all.skip(1) =~= adjusted_lines(tail, start));
                assert(text.last() == rest.last());
                assert(rendered(text, start) =~= adjusted_text(text, start));
            }
        }
    }
}

proof fn lemma_adjusted_line_end(line: Seq<char>, start: int)
    requires
        line.len() > 0,
        line.last() != '\n',
    ensures
        adjusted_line(line, start).len() > 0,
        adjusted_line(line, start).last() != '\n',
{
    match line_offset(line) {
        Some(offset) => {
            let secs = (start + offset) % (SECONDS_PER_DAY as int);
            let clock = clock_text(secs);
            assert(clock.len() == 8);
            assert(clock[7] == two_digits(secs % 60)[1]);
            if line.len() > 8 {
                assert(adjusted_line(line, start).last() == line.last());
            } else {
                assert(adjusted_line(line, start) =~= clock);
            }
        },
        None => {},
    }
}

proof fn lemma_rendered_end(text: Seq<char>, start: int)
    ensures
        text.len() > 0 ==> rendered(text, start).len() > 0,
        ends_with_newline(rendered(text, start)) == ends_with_newline(text),
    decreases text.len(),
{
    if text.len() > 0 {
        let n = first_newline(text) as int;
        lemma_first_newline_found(text);
        if n >= text.len() {
            lemma_adjusted_line_end(text, start);
        } else {
            let rest = text.skip(n + 1);
            lemma_rendered_end(rest, start);
            if rest.len() > 0 {
                assert(text.last() == rest.last());
                assert(rendered(text, start).last() == rendered(rest, start).last());
            }
        }
    }
}

/// Adjusting a text keeps its final line feed if it has one, and adds none
/// if it has none.
pub proof fn lemma_trailing_newline_is_kept(text: Seq<char>, start: int)
    ensures
        ends_with_newline(adjusted_text(text, start)) == ends_with_newline(text),
{
    lemma_rendered(text, start);
    lemma_rendered_end(text, start);
}

proof fn lemma_newline_count_of_parts(a: Seq<char>, b: Seq<char>)
    ensures
        newline_count(a + b) == newline_count(a) + newline_count(b),
    decreases b.len(),
{
    if b.len() == 0 {
        assert(a + b =~= a);
    } else {
        lemma_newline_count_of_parts(a, b.drop_last());
        assert((a + b).drop_last() =~= a + b.drop_last());
    }
}

proof fn lemma_newline_count_without(s: Seq<char>)
    requires
        forall|i: int| 0 <= i < s.len() ==> s[i] != '\n',
    ensures
        newline_count(s) == 0,
    decreases s.len(),
{
    if s.len() > 0 {
        lemma_newline_count_without(s.drop_last());
    }
}

proof fn lemma_adjusted_line_has_no_newline(line: Seq<char>, start: int)
    requires
        forall|i: int| 0 <= i < line.len() ==> line[i] != '\n',
    ensures
        forall|i: int|
            0 <= i < adjusted_line(line, start).len() ==> adjusted_line(line, start)[i] != '\n',
        line.len() > 0 ==> adjusted_line(line, start).len() > 0,
{
    match line_offset(line) {
        Some(offset) => {
            let secs = (start + offset) % (SECONDS_PER_DAY as int);
            let clock = clock_text(secs);
            let adjusted = adjusted_line(line, start);
            assert(clock.len() == 8);
            assert forall|i: int| 0 <= i < adjusted.len() implies adjusted[i] != '\n' by {
                if i >= 8 {
                    assert(adjusted[i] == line[i]);
                } else {
                    assert(adjusted[i] == clock[i]);
                    assert(two_digits(secs / 3600).len() == 2);
                }
            }
        },
        None => {},
    }
}

proof fn lemma_rendered_lines(text: Seq<char>, start: int)
    ensures
        lines_of(rendered(text, start)) == adjusted_lines(lines_of(text), start),
        newline_count(rendered(text, start)) == newline_count(text),
    decreases text.len(),
{
    if text.len() == 0 {
        assert(adjusted_lines(lines_of(text), start) =~= Seq::<Seq<char>>::empty());
    } else {
        let n = first_newline(text) as int;
        lemma_first_newline_found(text);
        let line = text.take(n);
        let changed = adjusted_line(line, start);
        lemma_adjusted_line_has_no_newline(line, start);
        lemma_newline_count_without(line);
        lemma_newline_count_without(changed);
        if n >= text.len() {
            assert(line =~= text);
            lemma_first_newline_is(changed, changed.len() as int);
            assert(adjusted_lines(seq![text], start) =~= seq![changed]);
        } else {
            let rest = text.skip(n + 1);
            lemma_rendered_lines(rest, start);
            let tail = rendered(rest, start);
            let whole = rendered(text, start);
            assert(whole == changed + seq!['\n'] + tail);
            lemma_first_newline_is(whole, changed.len() as int);
            assert(whole.take(changed.len() as int) =~= changed);
            assert(whole.skip(changed.len() as int + 1) =~= tail);
            assert(adjusted_lines(seq![line] + lines_of(rest), start) =~= seq![changed]
                + adjusted_lines(lines_of(rest), start));
            lemma_newline_count_of_parts(changed, seq!['\n']);
            lemma_newline_count_of_parts(changed + seq!['\n'], tail);
            lemma_newline_count_of_parts(line, seq!['\n']);
            lemma_newline_count_of_parts(line + seq!['\n'], rest);
            assert(text =~= line + seq!['\n'] + rest);
            assert(newline_count(seq!['\n']) == 1) by {
                reveal_with_fuel(newline_count, 2);
                assert(seq!['\n'].drop_last() =~= Seq::<char>::empty());
            }
        }
    }
}

/// Adjusting a text changes nothing but the time stamps: the lines of the
/// adjusted text are the lines of the text, each adjusted, and the adjusted
/// text holds as many line feeds as the text. No line is added, dropped or
/// joined to another.
pub proof fn lemma_lines_are_kept(text: Seq<char>, start: int)
    ensures
        lines_of(adjusted_text(text, start)) == adjusted_lines(lines_of(text), start),
        lines_of(adjusted_text(text, start)).len() == lines_of(text).len(),
        newline_count(adjusted_text(text, start)) == newline_count(text),
{
    lemma_rendered(text, start);
    lemma_rendered_lines(text, start);
}

/// A timestamp lies on the anchor date or on the day after it, which is a
/// date of the calendar, and a later offset gives a later timestamp.
pub proof fn lemma_absolute_keeps_order(date: CivilDate, start: int, earlier: int, later: int)
    requires
        date.is_valid(),
        !date.is_last(),
        0 <= start < SECONDS_PER_DAY,
        0 <= earlier <= later < SECONDS_PER_DAY,
    ensures
        absolute(date, start, earlier).date == date || absolute(date, start, earlier).date
            == date.next(),
        absolute(date, start, earlier).date.is_valid(),
        earlier < later ==> absolute(date, start, earlier).lt(absolute(date, start, later)),
        earlier == later ==> absolute(date, start, earlier) == absolute(date, start, later),
{
    reveal_with_fuel(CivilDate::plus_days, 2);
    lemma_next_is_later(date);
}

proof fn lemma_stamps_of_first(
    line: Seq<char>,
    tail: Seq<Seq<char>>,
    date: CivilDate,
    start: int,
)
    ensures
        line_stamps(seq![line] + tail, date, start) == stamp_of_line(line, date, start)
            + line_stamps(tail, date, start),
{
    let all = seq![line] + tail;
    assert(all.skip(1) =~= tail);
    assert(all[0] == line);
}

/// Where the line after the one that ends at `end` begins.
spec fn after_line(text: Seq<char>, end: int) -> int {
    if end < text.len() {
        end + 1
    } else {
        end
    }
}

/// The line feed that follows a line which ends before the end of the text.
spec fn line_feed(text: Seq<char>, end: int) -> Seq<char> {
    if end < text.len() {
        seq!['\n']
    } else {
        Seq::empty()
    }
}

/// Whether `out` and `seen` are what the text before `pos` contributes to
/// the adjusted text and to the timestamps.
#[verifier::opaque]
spec fn reaches(
    text: Seq<char>,
    date: CivilDate,
    start: int,
    pos: int,
    out: Seq<char>,
    seen: Seq<CivilDateTime>,
) -> bool {
    &&& 0 <= pos <= text.len()
    &&& rendered(text, start) == out + rendered(text.skip(pos), start)
    &&& line_stamps(lines_of(text), date, start) == seen + line_stamps(
        lines_of(text.skip(pos)),
        date,
        start,
    )
    &&& fits_calendar(text.skip(pos), date, start)
}

proof fn lemma_reaches_start(text: Seq<char>, date: CivilDate, start: int)
    requires
        fits_calendar(text, date, start),
    ensures
        reaches(text, date, start, 0, Seq::empty(), Seq::empty()),
{
    reveal(reaches);
    assert(text.skip(0) =~= text);
    assert(Seq::<char>::empty() + rendered(text, start) =~= rendered(text, start));
    assert(Seq::<CivilDateTime>::empty() + line_stamps(lines_of(text), date, start)
        =~= line_stamps(lines_of(text), date, start));
}

/// What one line adds: the text from `pos` on begins with the line that
/// ends at `end`, and goes on with the text after that line.
proof fn lemma_line_step(text: Seq<char>, date: CivilDate, start: int, pos: int, end: int)
    requires
        0 <= pos < text.len(),
        pos <= end <= text.len(),
        forall|i: int| pos <= i < end ==> text[i] != '\n',
        end == text.len() || text[end] == '\n',
    ensures
        rendered(text.skip(pos), start) == (adjusted_line(
            text.subrange(pos, end),
            start,
        ) + line_feed(text, end)) + rendered(text.skip(after_line(text, end)), start),
        line_stamps(lines_of(text.skip(pos)), date, start) == stamp_of_line(
            text.subrange(pos, end),
            date,
            start,
        ) + line_stamps(lines_of(text.skip(after_line(text, end))), date, start),
        lines_of(text.skip(pos)) == seq![text.subrange(pos, end)]
            + lines_of(text.skip(after_line(text, end))),
{
    let rest = text.skip(pos);
    let n = end - pos;
    let line = text.subrange(pos, end);
    let after = text.skip(after_line(text, end));
    lemma_first_newline_is(rest, n);
    assert(rest.take(n) =~= text.subrange(pos, end));
    if end < text.len() {
        assert(line =~= rest.take(n));
        assert(rest.skip(n + 1) =~= after);
        assert(lines_of(rest) == seq![line] + lines_of(after));
    } else {
        assert(line =~= rest);
        assert(after.len() == 0);
        assert(lines_of(after) =~= Seq::<Seq<char>>::empty());
        assert(lines_of(rest) =~= seq![line] + lines_of(after));
        assert(rendered(after, start) =~= Seq::<char>::empty());
    }
    assert(rendered(rest, start) =~= (adjusted_line(line, start) + line_feed(text, end))
        + rendered(after, start));
    lemma_stamps_of_first(line, lines_of(after), date, start);
}

proof fn lemma_chain<A>(whole: Seq<A>, done: Seq<A>, rest: Seq<A>, piece: Seq<A>, tail: Seq<A>)
    requires
        whole == done + rest,
        rest == piece + tail,
    ensures
        whole == (done + piece) + tail,
{
    assert(done + (piece + tail) =~= (done + piece) + tail);
}

proof fn lemma_reaches_next(
    text: Seq<char>,
    date: CivilDate,
    start: int,
    pos: int,
    end: int,
    out: Seq<char>,
    seen: Seq<CivilDateTime>,
)
    requires
        reaches(text, date, start, pos, out, seen),
        0 <= pos < text.len(),
        pos <= end <= text.len(),
        forall|i: int| pos <= i < end ==> text[i] != '\n',
        end == text.len() || text[end] == '\n',
    ensures
        reaches(
            text,
            date,
            start,
            after_line(text, end),
            out + (adjusted_line(text.subrange(pos, end), start) + line_feed(
                text,
                end,
            )),
            seen + stamp_of_line(text.subrange(pos, end), date, start),
        ),
        date.is_last() ==> stays_in_day(text.subrange(pos, end), start),
{
    reveal(reaches);
    lemma_line_step(text, date, start, pos, end);
    let line = text.subrange(pos, end);
    let after = text.skip(after_line(text, end));
    if date.is_last() {
        let lines = lines_of(text.skip(pos));
        assert(lines[0] == line);
        assert forall|i: int| 0 <= i < lines_of(after).len() implies stays_in_day(
            #[trigger] lines_of(after)[i],
            start,
        ) by {
            assert(lines[i + 1] == lines_of(after)[i]);
        }
    }
    lemma_chain(
        rendered(text, start),
        out,
        rendered(text.skip(pos), start),
        adjusted_line(line, start) + line_feed(text, end),
        rendered(after, start),
    );
    lemma_chain(
        line_stamps(lines_of(text), date, start),
        seen,
        line_stamps(lines_of(text.skip(pos)), date, start),
        stamp_of_line(line, date, start),
        line_stamps(lines_of(after), date, start),
    );
}

proof fn lemma_reaches_end(
    text: Seq<char>,
    date: CivilDate,
    start: int,
    out: Seq<char>,
    seen: Seq<CivilDateTime>,
)
    requires
        reaches(text, date, start, text.len() as int, out, seen),
    ensures
        out == adjusted_text(text, start),
        seen == line_stamps(lines_of(text), date, start),
{
    reveal(reaches);
    lemma_rendered(text, start);
    let after = text.skip(text.len() as int);
    assert(after.len() == 0);
    assert(out =~= out + rendered(after, start));
    assert(seen =~= seen + line_stamps(lines_of(after), date, start));
}

proof fn lemma_backward_step_push(seen: Seq<CivilDateTime>, stamp: CivilDateTime)
    ensures
        has_backward_step(seen.push(stamp)) == (has_backward_step(seen) || (seen.len() > 0
            && stamp.lt(seen.last()))),
{
    let more = seen.push(stamp);
    if has_backward_step(seen) {
        let i = choose|i: int| steps_back(seen, i);
        assert(steps_back(more, i));
    }
    if seen.len() > 0 && stamp.lt(seen.last()) {
        assert(steps_back(more, seen.len() - 1));
    }
    if has_backward_step(more) {
        let i = choose|i: int| steps_back(more, i);
        if i < seen.len() - 1 {
            assert(steps_back(seen, i));
        }
    }
}

proof fn lemma_fits_by_lines(
    line: Seq<char>,
    tail: Seq<Seq<char>>,
    lines: Seq<Seq<char>>,
    start: int,
)
    requires
        lines == seq![line] + tail,
    ensures
        (forall|i: int| 0 <= i < lines.len() ==> stays_in_day(#[trigger] lines[i], start)) <==> (
        stays_in_day(line, start) && forall|i: int|
            0 <= i < tail.len() ==> stays_in_day(#[trigger] tail[i], start)),
{
    assert(lines[0] == line);
    if forall|i: int| 0 <= i < lines.len() ==> stays_in_day(#[trigger] lines[i], start) {
        assert forall|i: int| 0 <= i < tail.len() implies stays_in_day(
            #[trigger] tail[i],
            start,
        ) by {
            assert(lines[i + 1] == tail[i]);
        }
    }
    if stays_in_day(line, start) && forall|i: int|
        0 <= i < tail.len() ==> stays_in_day(#[trigger] tail[i], start) {
        assert forall|i: int| 0 <= i < lines.len() implies stays_in_day(
            #[trigger] lines[i],
            start,
        ) by {
            if i > 0 {
                assert(lines[i] == tail[i - 1]);
            }
        }
    }
}

/// The end of the line that begins at `pos`: the position of the next
/// line feed, or the end of the text.
fn find_line_end(chars: &Vec<char>, pos: usize) -> (end: usize)
    requires
        pos <= chars.len(),
    ensures
        pos <= end <= chars.len(),
        forall|i: int| pos <= i < end ==> chars@[i] != '\n',
        end == chars.len() || chars@[end as int] == '\n',
{
    let mut end: usize = pos;
    while end < chars.len() && chars[end] != '\n'
        invariant
            pos <= end <= chars.len(),
            forall|i: int| pos <= i < end ==> chars@[i] != '\n',
        decreases chars.len() - end,
    {
        end += 1;
    }
    end
}

/// Appends the line `chars[from..to]`, adjusted, to `out`, and returns the
/// absolute timestamp of the line if it carries a time stamp.
fn push_adjusted_line(
    out: &mut Vec<char>,
    chars: &Vec<char>,
    from: usize,
    to: usize,
    base_time: TimeOfDay,
    effective_date: Date,
) -> (r: Option<DateTime>)
    requires
        from <= to <= chars.len(),
        effective_date@.is_last() ==> stays_in_day(
            chars@.subrange(from as int, to as int),
            base_time@,
        ),
    ensures
        final(out)@ == old(out)@ + adjusted_line(
            chars@.subrange(from as int, to as int),
            base_time@,
        ),
        match r {
            Some(stamp) => stamp_of_line(
                chars@.subrange(from as int, to as int),
                effective_date@,
                base_time@,
            ) == seq![stamp@],
            None => stamp_of_line(
                chars@.subrange(from as int, to as int),
                effective_date@,
                base_time@,
            ) == Seq::<CivilDateTime>::empty(),
        },
{
    let ghost line = chars@.subrange(from as int, to as int);
    match stamp_at(chars, from, to) {
        Some(relative) => {
            let stamp = apply_offset(base_time, effective_date, relative);
            stamp.time().push_clock(out);
            push_range(out, chars, from + STAMP_LEN, to);
            proof {
                assert(chars@.subrange(from + STAMP_LEN, to as int) =~= line.skip(
                    STAMP_LEN as int,
                ));
                assert(out@ =~= old(out)@ + adjusted_line(line, base_time@));
            }
            Some(stamp)
        },
        None => {
            push_range(out, chars, from, to);
            None
        },
    }
}

/// Rewrites the time stamps of transcripts.
pub struct TranscriptProcessor;

impl TranscriptProcessor {
    /// Whether `contents` can be adjusted to the anchor `base_time` on
    /// `effective_date`: whether every timestamp falls on a date of the
    /// calendar. That fails only on the last date of the calendar, for a
    /// text with a time stamp that passes midnight.
    pub fn can_adjust(contents: &str, base_time: TimeOfDay, effective_date: Date) -> (r: bool)
        ensures
            r == fits_calendar(contents@, effective_date@, base_time@),
    {
        if effective_date.succ_opt().is_some() {
            return true;
        }
        let chars = chars_of(contents);
        let ghost text = chars@;
        let ghost start = base_time@;
        let ghost date = effective_date@;
        let len = chars.len();
        let anchor = base_time.num_seconds_from_midnight();
        let mut pos: usize = 0;
        assert(text.skip(0) =~= text);
        while pos < len
            invariant
                len == chars.len(),
                text == chars@,
                start == base_time@,
                date == effective_date@,
                date.is_last(),
                text == contents@,
                anchor == start,
                anchor < SECONDS_PER_DAY,
                pos <= len,
                fits_calendar(text, date, start) == fits_calendar(
                    text.skip(pos as int),
                    date,
                    start,
                ),
            decreases len - pos,
        {
            let end = find_line_end(&chars, pos);
            let ghost line = text.subrange(pos as int, end as int);
            let ghost after = text.skip(after_line(text, end as int));
            proof {
                lemma_line_step(text, date, start, pos as int, end as int);
                lemma_fits_by_lines(line, lines_of(after), lines_of(text.skip(pos as int)), start);
            }
            if let Some(relative) = stamp_at(&chars, pos, end) {
                if anchor + relative.num_seconds_from_midnight() >= SECONDS_PER_DAY {
                    proof {
                        assert(!stays_in_day(line, start));
                        assert(lines_of(text.skip(pos as int))[0] == line);
                    }
                    return false;
                }
            }
            pos = if end < len {
                end + 1
            } else {
                end
            };
        }
        assert(lines_of(text.skip(pos as int)) =~= Seq::<Seq<char>>::empty());
        true
    }

    /// Adjusts `contents` to the anchor `base_time` on `effective_date`.
    ///
    /// Every line that begins with a relative time `HH:MM:SS` gets the
    /// time of day that lies that far after the anchor in place of it; all
    /// other lines stay as they are. The result also holds the absolute
    /// timestamps of the first and the last such line, the date moved on
    /// where midnight was passed, and says whether some timestamp is
    /// earlier than the one before it. A text without any time stamp is an
    /// error.
    ///
    /// Every timestamp must fall on a date of the calendar: where the
    /// anchor lies on the last date, no time stamp may pass midnight.
    pub fn adjust(contents: &str, base_time: TimeOfDay, effective_date: Date) -> (r: Result<
        TranscriptUpdate,
        TranscriptError,
    >)
        requires
            fits_calendar(contents@, effective_date@, base_time@),
        ensures
            r is Ok <==> line_stamps(lines_of(contents@), effective_date@, base_time@).len() > 0,
            r matches Ok(u) ==> {
                let stamps = line_stamps(lines_of(contents@), effective_date@, base_time@);
                &&& u.body@ == adjusted_text(contents@, base_time@)
                &&& u.first_timestamp@ == stamps.first()
                &&& u.last_timestamp@ == stamps.last()
                &&& u.has_out_of_order_timestamps == has_backward_step(stamps)
                &&& ends_with_newline(u.body@) == ends_with_newline(contents@)
                &&& newline_count(u.body@) == newline_count(contents@)
                &&& lines_of(u.body@) == adjusted_lines(lines_of(contents@), base_time@)
            },
            r matches Err(e) ==> e == TranscriptError::NoTimestamps,
    {
        let chars = chars_of(contents);
        let ghost text = chars@;
        let ghost start = base_time@;
        let ghost date = effective_date@;
        let len = chars.len();
        let mut out: Vec<char> = Vec::new();
        let mut first: Option<DateTime> = None;
        let mut last: Option<DateTime> = None;
        let mut out_of_order = false;
        let ghost mut seen: Seq<CivilDateTime> = Seq::empty();
        let mut pos: usize = 0;
        proof {
            lemma_reaches_start(text, date, start);
        }
        while pos < len
            invariant
                len == chars.len(),
                text == chars@,
                start == base_time@,
                date == effective_date@,
                reaches(text, date, start, pos as int, out@, seen),
                pos <= len,
                first is Some <==> seen.len() > 0,
                last is Some <==> seen.len() > 0,
                first matches Some(f) ==> f@ == seen[0],
                last matches Some(l) ==> l@ == seen.last(),
                out_of_order == has_backward_step(seen),
            decreases len - pos,
        {
            let end = find_line_end(&chars, pos);
            let terminated = end < len;
            let ghost line = text.subrange(pos as int, end as int);
            let ghost out_before = out@;
            proof {
                lemma_reaches_next(text, date, start, pos as int, end as int, out@, seen);
            }
            match push_adjusted_line(&mut out, &chars, pos, end, base_time, effective_date) {
                Some(stamp) => {
                    if let Some(previous) = last {
                        if stamp.is_before(&previous) {
                            out_of_order = true;
                        }
                    }
                    if first.is_none() {
                        first = Some(stamp);
                    }
                    last = Some(stamp);
                    proof {
                        lemma_backward_step_push(seen, stamp@);
                        assert(seen + seq![stamp@] =~= seen.push(stamp@));
                        seen = seen.push(stamp@);
                    }
                },
                None => {
                    assert(seen + Seq::<CivilDateTime>::empty() =~= seen);
                },
            }
            if terminated {
                out.push('\n');
                pos = end + 1;
            } else {
                pos = end;
            }
            assert(pos == after_line(text, end as int));
            assert(out@ =~= out_before + (adjusted_line(line, start) + line_feed(
                text,
                end as int,
            )));
        }
        proof {
            lemma_reaches_end(text, date, start, out@, seen);
            lemma_trailing_newline_is_kept(text, start);
            lemma_lines_are_kept(text, start);
        }
        match (first, last) {
            (Some(first_timestamp), Some(last_timestamp)) => Ok(
                TranscriptUpdate {
                    body: string_of(&out),
                    first_timestamp,
                    last_timestamp,
                    has_out_of_order_timestamps: out_of_order,
                },
            ),
            _ => Err(TranscriptError::NoTimestamps),
        }
    }
}

} // verus!
