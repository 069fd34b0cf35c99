//! The ordering key of a transcript segment, read off its file name.
//!
//! Two shapes of file name are known. A flat name, `YYYYMMDD_HHMMSS_HHMMSS`,
//! holds the date, the start and the end of the segment. A nested name,
//! `HHMMSS-HHMMSS`, holds start and end only; its date is that of the
//! directory it lies in, which is either named `YYYY-MM-DD` or is a day
//! directory `YYYY/MM/DD`.

use crate::calendar::{civil, seconds_of, CivilDate, Date, TimeOfDay};
use crate::merge::{MergeError, MergeFailure};
use crate::paths::{
    dir_name_of, file_name_bounds, file_name_of, is_proper_name_at, parent_len, parent_of, stem_end,
    stem_of,
};
use crate::text::{
    all_digits, chars_of, push_range, range_is_digits, read_two_digits, string_of,
    two_digit_value,
};
use vstd::prelude::*;

verus! {

/// The number that the four digits of `s` from `i` on spell.
pub open spec fn four_digit_value(s: Seq<char>, i: int) -> int {
    two_digit_value(s, i) * 100 + two_digit_value(s, i + 2)
}

/// Whether `stem` has the flat shape: eight digits, an underscore, six
/// digits, an underscore and six digits.
pub open spec fn is_flat_name(stem: Seq<char>) -> bool {
    &&& stem.len() == 22
    &&& all_digits(stem, 0, 8)
    &&& stem[8] == '_'
    &&& all_digits(stem, 9, 15)
    &&& stem[15] == '_'
    &&& all_digits(stem, 16, 22)
}

/// Whether `stem` has the nested shape: six digits, a dash and six digits.
pub open spec fn is_nested_name(stem: Seq<char>) -> bool {
    &&& stem.len() == 13
    &&& all_digits(stem, 0, 6)
    &&& stem[6] == '-'
    &&& all_digits(stem, 7, 13)
}

/// The date with the given numbers, if it exists.
pub open spec fn date_of_numbers(year: int, month: int, day: int) -> Option<CivilDate> {
    if civil(year, month, day).is_valid() {
        Some(civil(year, month, day))
    } else {
        None
    }
}

/// The time of day that the six digits `HHMMSS` of `s` from `at` on spell,
/// in seconds, if hour, minute and second are in range.
pub open spec fn compact_clock_at(s: Seq<char>, at: int) -> Option<int> {
    if two_digit_value(s, at) < 24 && two_digit_value(s, at + 2) < 60 && two_digit_value(
        s,
        at + 4,
    ) < 60 {
        Some(
            seconds_of(
                two_digit_value(s, at),
                two_digit_value(s, at + 2),
                two_digit_value(s, at + 4),
            ),
        )
    } else {
        None
    }
}

/// The time of day that `value` spells as `HHMMSS`.
pub open spec fn compact_clock_of(value: Seq<char>) -> Option<int> {
    if value.len() == 6 && all_digits(value, 0, 6) {
        compact_clock_at(value, 0)
    } else {
        None
    }
}

/// The date that the eight digits `YYYYMMDD` of `s` from `at` on spell.
pub open spec fn compact_date_at(s: Seq<char>, at: int) -> Option<CivilDate> {
    date_of_numbers(four_digit_value(s, at), two_digit_value(s, at + 4), two_digit_value(s, at + 6))
}

/// Whether `name` has the shape `YYYY-MM-DD`.
pub open spec fn is_dashed_name(name: Seq<char>) -> bool {
    &&& name.len() == 10
    &&& all_digits(name, 0, 4)
    &&& name[4] == '-'
    &&& all_digits(name, 5, 7)
    &&& name[7] == '-'
    &&& all_digits(name, 8, 10)
}

/// The date that `name` spells as `YYYY-MM-DD`.
pub open spec fn dashed_date_of(name: Seq<char>) -> Option<CivilDate> {
    if is_dashed_name(name) {
        date_of_numbers(four_digit_value(name, 0), two_digit_value(name, 5), two_digit_value(name, 8))
    } else {
        None
    }
}

/// The date that the names of a year, a month and a day directory spell:
/// four, two and two digits.
pub open spec fn ancestry_date_of(
    year_name: Seq<char>,
    month_name: Seq<char>,
    day_name: Seq<char>,
) -> Option<CivilDate> {
    if year_name.len() == 4 && month_name.len() == 2 && day_name.len() == 2 && all_digits(
        year_name,
        0,
        4,
    ) && all_digits(month_name, 0, 2) && all_digits(day_name, 0, 2) {
        date_of_numbers(
            four_digit_value(year_name, 0),
            two_digit_value(month_name, 0),
            two_digit_value(day_name, 0),
        )
    } else {
        None
    }
}

/// The date that the directories above `day_dir` give it, where `day_dir`
/// is named `day_name`: the names of the directory two levels up, of the
/// one above and of `day_dir` itself, read as year, month and day.
pub open spec fn ancestry_date(day_dir: Seq<char>, day_name: Seq<char>) -> Option<CivilDate> {
    match parent_of(day_dir) {
        None => None,
        Some(month_dir) => match parent_of(month_dir) {
            None => None,
            Some(year_dir) => match (dir_name_of(month_dir), dir_name_of(year_dir)) {
                (Some(month_name), Some(year_name)) => ancestry_date_of(
                    year_name,
                    month_name,
                    day_name,
                ),
                _ => None,
            },
        },
    }
}

/// The day directory that holds the file at `path`, with its date: the
/// directory of the file, if it is named as a date `YYYY-MM-DD` or else is
/// the day in a `YYYY/MM/DD` hierarchy.
pub open spec fn day_directory(path: Seq<char>) -> Option<(Seq<char>, CivilDate)> {
    match parent_of(path) {
        None => None,
        Some(day_dir) => match dir_name_of(day_dir) {
            None => None,
            Some(day_name) => match dashed_date_of(day_name) {
                Some(date) => Some((day_dir, date)),
                None => match ancestry_date(day_dir, day_name) {
                    Some(date) => Some((day_dir, date)),
                    None => None,
                },
            },
        },
    }
}

/// The date that the directories above the file at `path` give it.
pub open spec fn directory_date(path: Seq<char>) -> Option<CivilDate> {
    match day_directory(path) {
        Some(found) => Some(found.1),
        None => None,
    }
}

/// The mathematical model of a sort key: the date, if one is known, and the
/// start time in seconds from midnight.
pub struct SortKeyView {
    pub date: Option<CivilDate>,
    pub start: int,
}

impl SortKeyView {
    /// The order of the keys: by date, a missing date before any date, and
    /// then by start time.
    pub open spec fn lt(self, other: SortKeyView) -> bool {
        match (self.date, other.date) {
            (None, None) => self.start < other.start,
            (None, Some(_)) => true,
            (Some(_), None) => false,
            (Some(a), Some(b)) => a.lt(b) || (a == b && self.start < other.start),
        }
    }

    /// Not after `other` in the order of the keys.
    pub open spec fn le(self, other: SortKeyView) -> bool {
        !other.lt(self)
    }
}

/// The key of a file with the flat name `stem`.
pub open spec fn flat_key_of(stem: Seq<char>) -> Option<SortKeyView> {
    if is_flat_name(stem) {
        match (compact_date_at(stem, 0), compact_clock_at(stem, 9)) {
            (Some(date), Some(start)) => Some(SortKeyView { date: Some(date), start }),
            _ => None,
        }
    } else {
        None
    }
}

/// The key of the file at `path` with the nested name `stem`.
pub open spec fn nested_key_of(path: Seq<char>, stem: Seq<char>) -> Option<SortKeyView> {
    if is_nested_name(stem) {
        match compact_clock_at(stem, 0) {
            Some(start) => Some(SortKeyView { date: directory_date(path), start }),
            None => None,
        }
    } else {
        None
    }
}

/// The key of the file at `path`, if its name has one of the two shapes and
/// spells an existing date and time.
pub open spec fn sort_key_of(path: Seq<char>) -> Option<SortKeyView> {
    let stem = stem_of(file_name_of(path));
    if is_flat_name(stem) {
        flat_key_of(stem)
    } else {
        nested_key_of(path, stem)
    }
}

/// The characters `chars[from..to]`.
fn sub_vec(chars: &Vec<char>, from: usize, to: usize) -> (r: Vec<char>)
    requires
        from <= to <= chars.len(),
    ensures
        r@ == chars@.subrange(from as int, to as int),
{
    let mut out: Vec<char> = Vec::new();
    push_range(&mut out, chars, from, to);
    out
}

/// Reads the four digits from `i` on.
fn read_four_digits(s: &Vec<char>, i: usize) -> (r: u32)
    requires
        i + 4 <= s.len(),
        all_digits(s@, i as int, i + 4),
    ensures
        r == four_digit_value(s@, i as int),
        r <= 9999,
{
    read_two_digits(s, i) * 100 + read_two_digits(s, i + 2)
}

/// The time that the six digits from `at` on spell.
fn clock_at(s: &Vec<char>, at: usize) -> (r: Option<TimeOfDay>)
    requires
        at + 6 <= s.len(),
        all_digits(s@, at as int, at + 6),
    ensures
        r is Some <==> compact_clock_at(s@, at as int) is Some,
        r matches Some(t) ==> compact_clock_at(s@, at as int) == Some(t@),
{
    let hour = read_two_digits(s, at);
    let minute = read_two_digits(s, at + 2);
    let second = read_two_digits(s, at + 4);
    TimeOfDay::from_hms_opt(hour, minute, second)
}

/// The date with the given numbers.
fn date_from_numbers(year: u32, month: u32, day: u32) -> (r: Option<Date>)
    requires
        year <= 9999,
    ensures
        r is Some <==> date_of_numbers(year as int, month as int, day as int) is Some,
        r matches Some(d) ==> date_of_numbers(year as int, month as int, day as int) == Some(d@),
{
    Date::from_ymd_opt(year as i32, month, day)
}

fn flat_shape(stem: &Vec<char>) -> (r: bool)
    ensures
        r == is_flat_name(stem@),
{
    stem.len() == 22 && range_is_digits(stem, 0, 8) && stem[8] == '_' && range_is_digits(
        stem,
        9,
        15,
    ) && stem[15] == '_' && range_is_digits(stem, 16, 22)
}

fn nested_shape(stem: &Vec<char>) -> (r: bool)
    ensures
        r == is_nested_name(stem@),
{
    stem.len() == 13 && range_is_digits(stem, 0, 6) && stem[6] == '-' && range_is_digits(
        stem,
        7,
        13,
    )
}

fn dashed_shape(name: &Vec<char>) -> (r: bool)
    ensures
        r == is_dashed_name(name@),
{
    name.len() == 10 && range_is_digits(name, 0, 4) && name[4] == '-' && range_is_digits(
        name,
        5,
        7,
    ) && name[7] == '-' && range_is_digits(name, 8, 10)
}

/// The date that a directory name spells as `YYYY-MM-DD`.
fn dashed_date(name: &Vec<char>) -> (r: Option<Date>)
    ensures
        r is Some <==> dashed_date_of(name@) is Some,
        r matches Some(d) ==> dashed_date_of(name@) == Some(d@),
{
    if dashed_shape(name) {
        date_from_numbers(
            read_four_digits(name, 0),
            read_two_digits(name, 5),
            read_two_digits(name, 8),
        )
    } else {
        None
    }
}

/// The date that the names of year, month and day directory spell.
fn ancestry_names_date(year_name: &Vec<char>, month_name: &Vec<char>, day_name: &Vec<char>) -> (r:
    Option<Date>)
    ensures
        r is Some <==> ancestry_date_of(year_name@, month_name@, day_name@) is Some,
        r matches Some(d) ==> ancestry_date_of(year_name@, month_name@, day_name@) == Some(d@),
{
    if year_name.len() == 4 && month_name.len() == 2 && day_name.len() == 2 && range_is_digits(
        year_name,
        0,
        4,
    ) && range_is_digits(month_name, 0, 2) && range_is_digits(day_name, 0, 2) {
        date_from_numbers(
            read_four_digits(year_name, 0),
            read_two_digits(month_name, 0),
            read_two_digits(day_name, 0),
        )
    } else {
        None
    }
}

/// The name of the directory `chars[..len]`.
fn dir_name_at(chars: &Vec<char>, len: usize) -> (r: Option<Vec<char>>)
    requires
        len <= chars.len(),
    ensures
        r is Some <==> dir_name_of(chars@.take(len as int)) is Some,
        r matches Some(name) ==> dir_name_of(chars@.take(len as int)) == Some(name@),
{
    let name = file_name_bounds(chars, len);
    if is_proper_name_at(chars, name.0, name.1) {
        Some(sub_vec(chars, name.0, name.1))
    } else {
        None
    }
}

/// The date that the directories above the day directory `chars[..day_len]`
/// give it.
fn ancestry_date_at(chars: &Vec<char>, day_len: usize, day_name: &Vec<char>) -> (r: Option<Date>)
    requires
        day_len <= chars.len(),
    ensures
        r is Some <==> ancestry_date(chars@.take(day_len as int), day_name@) is Some,
        r matches Some(d) ==> ancestry_date(chars@.take(day_len as int), day_name@) == Some(d@),
{
    let month_len = match parent_len(chars, day_len) {
        Some(n) => n,
        None => {
            return None;
        },
    };
    let year_len = match parent_len(chars, month_len) {
        Some(n) => n,
        None => {
            return None;
        },
    };
    let month_name = match dir_name_at(chars, month_len) {
        Some(name) => name,
        None => {
            return None;
        },
    };
    let year_name = match dir_name_at(chars, year_len) {
        Some(name) => name,
        None => {
            return None;
        },
    };
    ancestry_names_date(&year_name, &month_name, day_name)
}

/// The day directory of the path `chars`, as the length of the directory
/// within the path, and its date.
fn day_directory_at(chars: &Vec<char>) -> (r: Option<(usize, Date)>)
    ensures
        r is Some <==> day_directory(chars@) is Some,
        r matches Some(found) ==> found.0 <= chars.len() && day_directory(chars@) == Some(
            (chars@.take(found.0 as int), found.1@),
        ),
{
    assert(chars@.take(chars@.len() as int) =~= chars@);
    let day_len = match parent_len(chars, chars.len()) {
        Some(n) => n,
        None => {
            return None;
        },
    };
    let day_name = match dir_name_at(chars, day_len) {
        Some(name) => name,
        None => {
            return None;
        },
    };
    match dashed_date(&day_name) {
        Some(date) => Some((day_len, date)),
        None => match ancestry_date_at(chars, day_len, &day_name) {
            Some(date) => Some((day_len, date)),
            None => None,
        },
    }
}

/// The day directory that holds the file at `path`, with its date.
pub fn extract_nested_day_directory(path: &str) -> (r: Option<(String, Date)>)
    ensures
        r is Some <==> day_directory(path@) is Some,
        r matches Some(found) ==> day_directory(path@) == Some((found.0@, found.1@)),
{
    let chars = chars_of(path);
    match day_directory_at(&chars) {
        Some(found) => {
            let dir = sub_vec(&chars, 0, found.0);
            assert(chars@.subrange(0, found.0 as int) =~= chars@.take(found.0 as int));
            Some((string_of(&dir), found.1))
        },
        None => None,
    }
}

/// The date that the directories above the file at `path` give it.
pub fn parse_date_from_path(path: &str) -> (r: Option<Date>)
    ensures
        r is Some <==> directory_date(path@) is Some,
        r matches Some(d) ==> directory_date(path@) == Some(d@),
{
    let chars = chars_of(path);
    match day_directory_at(&chars) {
        Some(found) => Some(found.1),
        None => None,
    }
}

/// The time of day that `value` spells as `HHMMSS`.
pub fn parse_time_digits(value: &str) -> (r: Option<TimeOfDay>)
    ensures
        r is Some <==> compact_clock_of(value@) is Some,
        r matches Some(t) ==> compact_clock_of(value@) == Some(t@),
{
    let chars = chars_of(value);
    if chars.len() == 6 && range_is_digits(&chars, 0, 6) {
        clock_at(&chars, 0)
    } else {
        None
    }
}

/// The key by which transcript segments are ordered.
#[derive(Clone, Copy, Debug, PartialEq, Eq, Structural)]
pub struct FileSortKey {
    /// The date of the segment, if one is known.
    pub date: Option<Date>,
    /// The time at which the segment starts.
    pub start: TimeOfDay,
}

impl View for FileSortKey {
    type V = SortKeyView;

    open spec fn view(&self) -> SortKeyView {
        SortKeyView {
            date: match self.date {
                Some(d) => Some(d@),
                None => None,
            },
            start: self.start@,
        }
    }
}

/// The error for a file whose name gives no key.
fn unrecognized(path: &str) -> (e: MergeError)
    ensures
        e@ == MergeFailure::UnrecognizedFilename(path@),
{
    MergeError::UnrecognizedFilename(path.to_owned())
}

impl FileSortKey {
    /// Whether `filename` has the flat shape `YYYYMMDD_HHMMSS_HHMMSS`.
    pub fn looks_like_flat_format(filename: &str) -> (r: bool)
        ensures
            r == is_flat_name(filename@),
    {
        let stem = chars_of(filename);
        flat_shape(&stem)
    }

    /// Whether `filename` has the nested shape `HHMMSS-HHMMSS`.
    pub fn looks_like_nested_format(filename: &str) -> (r: bool)
        ensures
            r == is_nested_name(filename@),
    {
        let stem = chars_of(filename);
        nested_shape(&stem)
    }

    fn flat_key(stem: &Vec<char>) -> (r: Option<FileSortKey>)
        ensures
            r is Some <==> flat_key_of(stem@) is Some,
            r matches Some(key) ==> flat_key_of(stem@) == Some(key@),
    {
        if !flat_shape(stem) {
            return None;
        }
        let date = date_from_numbers(
            read_four_digits(stem, 0),
            read_two_digits(stem, 4),
            read_two_digits(stem, 6),
        );
        let start = clock_at(stem, 9);
        match (date, start) {
            (Some(date), Some(start)) => Some(FileSortKey { date: Some(date), start }),
            _ => None,
        }
    }

    fn nested_key(path: &Vec<char>, stem: &Vec<char>) -> (r: Option<FileSortKey>)
        ensures
            r is Some <==> nested_key_of(path@, stem@) is Some,
            r matches Some(key) ==> nested_key_of(path@, stem@) == Some(key@),
    {
        if !nested_shape(stem) {
            return None;
        }
        match clock_at(stem, 0) {
            Some(start) => {
                let date = match day_directory_at(path) {
                    Some(found) => Some(found.1),
                    None => None,
                };
                Some(FileSortKey { date, start })
            },
            None => None,
        }
    }

    /// The key of the file at `path` whose name without extension is
    /// `filename`, read as a flat name.
    pub fn parse_flat(path: &str, filename: &str) -> (r: Result<FileSortKey, MergeError>)
        ensures
            match flat_key_of(filename@) {
                Some(key) => r matches Ok(k) && k@ == key,
                None => r matches Err(e) && e@ == MergeFailure::UnrecognizedFilename(path@),
            },
    {
        let stem = chars_of(filename);
        match FileSortKey::flat_key(&stem) {
            Some(key) => Ok(key),
            None => Err(unrecognized(path)),
        }
    }

    /// The key of the file at `path` whose name without extension is
    /// `filename`, read as a nested name.
    pub fn parse_nested(path: &str, filename: &str) -> (r: Result<FileSortKey, MergeError>)
        ensures
            match nested_key_of(path@, filename@) {
                Some(key) => r matches Ok(k) && k@ == key,
                None => r matches Err(e) && e@ == MergeFailure::UnrecognizedFilename(path@),
            },
    {
        let stem = chars_of(filename);
        let chars = chars_of(path);
        match FileSortKey::nested_key(&chars, &stem) {
            Some(key) => Ok(key),
            None => Err(unrecognized(path)),
        }
    }

    /// The key of the file at `path`.
    ///
    /// A name that has neither shape, or that spells a date or a time that
    /// does not exist, is an error that names the path.
    pub fn from_path(path: &str) -> (r: Result<FileSortKey, MergeError>)
        ensures
            match sort_key_of(path@) {
                Some(key) => r matches Ok(k) && k@ == key,
                None => r matches Err(e) && e@ == MergeFailure::UnrecognizedFilename(path@),
            },
    {
        let chars = chars_of(path);
        assert(chars@.take(chars@.len() as int) =~= chars@);
        let name = file_name_bounds(&chars, chars.len());
        let end = stem_end(&chars, name.0, name.1);
        let stem = sub_vec(&chars, name.0, end);
        let key = if flat_shape(&stem) {
            FileSortKey::flat_key(&stem)
        } else {
            FileSortKey::nested_key(&chars, &stem)
        };
        match key {
            Some(key) => Ok(key),
            None => Err(unrecognized(path)),
        }
    }

    /// Whether this key comes before `other` in the order of the keys.
    pub fn precedes(&self, other: &FileSortKey) -> (r: bool)
        ensures
            r == self@.lt(other@),
    {
        match (self.date, other.date) {
            (None, None) => self.start.is_before(&other.start),
            (None, Some(_)) => true,
            (Some(_), None) => false,
            (Some(a), Some(b)) => a.is_before(&b) || (a.same_day(&b) && self.start.is_before(
                &other.start,
            )),
        }
    }
}

} // verus!
