use plaud_timestamp::calendar::{Date, TimeOfDay};
use plaud_timestamp::cli::parse_hms;
use plaud_timestamp::transcript::{
    apply_offset, parse_timestamp_line, TranscriptError, TranscriptProcessor,
};

fn base_time() -> TimeOfDay {
    parse_hms("18:01:12").unwrap()
}

fn christmas() -> Date {
    Date::from_ymd_opt(2024, 12, 25).unwrap()
}

#[test]
fn adjusts_timestamp_lines_and_preserves_non_timestamp_text() {
    let input = "\
00:00:01 Speaker 1
Line without timestamp
00:00:03 Speaker 2
";
    let result = TranscriptProcessor::adjust(input, base_time(), christmas()).unwrap();
    assert_eq!(
        result.body,
        "\
18:01:13 Speaker 1
Line without timestamp
18:01:15 Speaker 2
"
    );
    assert_eq!(result.first_timestamp.time().format_clock(), "18:01:13");
    assert_eq!(result.last_timestamp.time().format_clock(), "18:01:15");
}

#[test]
fn reports_error_when_no_timestamp_lines_exist() {
    let input = "No timestamps here\n";
    let err = TranscriptProcessor::adjust(input, base_time(), christmas()).unwrap_err();
    assert!(matches!(err, TranscriptError::NoTimestamps));
}

#[test]
fn preserves_trailing_newline_presence() {
    let input = "00:00:01 Foo";
    let result = TranscriptProcessor::adjust(input, base_time(), christmas()).unwrap();
    assert!(!result.body.ends_with('\n'));
    let input_with_newline = "00:00:01 Foo\n";
    let result_with_newline =
        TranscriptProcessor::adjust(input_with_newline, base_time(), christmas()).unwrap();
    assert!(result_with_newline.body.ends_with('\n'));
}

#[test]
fn non_ascii_lines_without_timestamps_are_untouched() {
    let input = "Mindy-já. I love you.\n00:00:01 Speaker 1\nLine\n";
    let result = TranscriptProcessor::adjust(input, base_time(), christmas()).unwrap();
    assert!(result
        .body
        .starts_with("Mindy-já. I love you.\n18:01:13 Speaker 1"));
}

#[test]
fn handles_midnight_overflow() {
    let input = "00:00:01 Start\n01:00:00 One hour later\n";
    let late_start = TimeOfDay::from_hms_opt(23, 30, 0).unwrap();
    let date = Date::from_ymd_opt(2024, 12, 25).unwrap();
    let result = TranscriptProcessor::adjust(input, late_start, date).unwrap();

    assert_eq!(result.first_timestamp.date(), date);
    assert_eq!(result.first_timestamp.time().format_clock(), "23:30:01");

    let next_day = Date::from_ymd_opt(2024, 12, 26).unwrap();
    assert_eq!(result.last_timestamp.date(), next_day);
    assert_eq!(result.last_timestamp.time().format_clock(), "00:30:00");

    assert!(result.body.contains("23:30:01 Start"));
    assert!(result.body.contains("00:30:00 One hour later"));
}

#[test]
fn detects_out_of_order_timestamps() {
    let input = "00:00:05 Later\n00:00:02 Earlier\n";
    let result = TranscriptProcessor::adjust(input, base_time(), christmas()).unwrap();
    assert!(
        result.has_out_of_order_timestamps,
        "should detect out-of-order timestamps"
    );
}

#[test]
fn in_order_timestamps_not_flagged() {
    let input = "00:00:01 First\n00:00:03 Second\n00:00:05 Third\n";
    let result = TranscriptProcessor::adjust(input, base_time(), christmas()).unwrap();
    assert!(
        !result.has_out_of_order_timestamps,
        "should not flag in-order timestamps"
    );
}

#[test]
fn adjusts_the_sample_transcript() {
    let input = "00:00:01 Speaker 1\nLine\n00:00:03 Speaker 2\n";
    let result = TranscriptProcessor::adjust(input, base_time(), christmas()).unwrap();
    assert_eq!(result.body, "18:01:13 Speaker 1\nLine\n18:01:15 Speaker 2\n");
    assert_eq!(result.first_timestamp.date(), christmas());
    assert_eq!(result.last_timestamp.date(), christmas());
    assert!(!result.has_out_of_order_timestamps);
}

#[test]
fn offset_past_midnight_lands_on_the_next_day() {
    let start = TimeOfDay::from_hms_opt(23, 30, 0).unwrap();
    let offset = TimeOfDay::from_hms_opt(1, 0, 0).unwrap();
    let stamp = apply_offset(start, christmas(), offset);
    assert_eq!(stamp.date(), Date::from_ymd_opt(2024, 12, 26).unwrap());
    assert_eq!(stamp.time(), TimeOfDay::from_hms_opt(0, 30, 0).unwrap());
}

#[test]
fn offset_arithmetic_wraps_at_one_day() {
    let date = Date::from_ymd_opt(2023, 2, 28).unwrap();
    let anchors = [0u32, 1, 3599, 43200, 86399];
    let offsets = [0u32, 1, 59, 3600, 43199, 43200, 86399];
    for a in anchors {
        for o in offsets {
            let start = TimeOfDay::from_num_seconds_from_midnight_opt(a).unwrap();
            let relative = TimeOfDay::from_num_seconds_from_midnight_opt(o).unwrap();
            let stamp = apply_offset(start, date, relative);
            assert_eq!(stamp.time().num_seconds_from_midnight(), (a + o) % 86400);
            let expected = if (a + o) / 86400 == 0 {
                date
            } else {
                Date::from_ymd_opt(2023, 3, 1).unwrap()
            };
            assert_eq!(stamp.date(), expected);
        }
    }
}

#[test]
fn exactly_midnight_is_the_next_day() {
    let start = TimeOfDay::from_hms_opt(23, 59, 59).unwrap();
    let offset = TimeOfDay::from_hms_opt(0, 0, 1).unwrap();
    let stamp = apply_offset(start, Date::from_ymd_opt(2024, 12, 31).unwrap(), offset);
    assert_eq!(stamp.date(), Date::from_ymd_opt(2025, 1, 1).unwrap());
    assert_eq!(stamp.time().num_seconds_from_midnight(), 0);
}

#[test]
fn equal_timestamps_are_not_out_of_order() {
    let input = "00:00:05 a\n00:00:05 b\n";
    let result = TranscriptProcessor::adjust(input, base_time(), christmas()).unwrap();
    assert!(!result.has_out_of_order_timestamps);
}

#[test]
fn out_of_order_is_seen_across_midnight() {
    let start = TimeOfDay::from_hms_opt(23, 59, 0).unwrap();
    let input = "00:02:00 after midnight\n00:00:30 before midnight\n";
    let result = TranscriptProcessor::adjust(input, start, christmas()).unwrap();
    assert!(result.has_out_of_order_timestamps);
    assert_eq!(result.body, "00:01:00 after midnight\n23:59:30 before midnight\n");
    assert_eq!(result.first_timestamp.date(), Date::from_ymd_opt(2024, 12, 26).unwrap());
    assert_eq!(result.last_timestamp.date(), christmas());
}

#[test]
fn lines_that_only_resemble_a_stamp_pass_through() {
    let input = "24:00:00 hour\n12:60:00 minute\n12:00:60 second\n1:02:03 short\n12-00-00 dashes\n 12:00:00 indented\n00:00:01 real\n";
    let result = TranscriptProcessor::adjust(input, base_time(), christmas()).unwrap();
    assert_eq!(
        result.body,
        "24:00:00 hour\n12:60:00 minute\n12:00:60 second\n1:02:03 short\n12-00-00 dashes\n 12:00:00 indented\n18:01:13 real\n"
    );
    assert_eq!(result.first_timestamp, result.last_timestamp);
}

#[test]
fn a_bare_stamp_is_a_line_of_its_own() {
    let result = TranscriptProcessor::adjust("00:00:01", base_time(), christmas()).unwrap();
    assert_eq!(result.body, "18:01:13");
}

#[test]
fn blank_lines_and_carriage_returns_are_kept() {
    let input = "a\n\n00:00:01 x\r\nlast\r";
    let result = TranscriptProcessor::adjust(input, base_time(), christmas()).unwrap();
    assert_eq!(result.body, "a\n\n18:01:13 x\r\nlast\r");
    let doubled = "00:00:01 x\n\n";
    let result = TranscriptProcessor::adjust(doubled, base_time(), christmas()).unwrap();
    assert_eq!(result.body, "18:01:13 x\n\n");
    let windows = "00:00:01 A\r\nB\r\n";
    let result = TranscriptProcessor::adjust(windows, base_time(), christmas()).unwrap();
    assert_eq!(result.body, "18:01:13 A\r\nB\r\n");
    let bare = "00:00:01\r\n\r\n\r";
    let result = TranscriptProcessor::adjust(bare, base_time(), christmas()).unwrap();
    assert_eq!(result.body, "18:01:13\r\n\r\n\r");
}

#[test]
fn an_empty_text_has_no_timestamps() {
    assert!(matches!(
        TranscriptProcessor::adjust("", base_time(), christmas()),
        Err(TranscriptError::NoTimestamps)
    ));
    assert!(matches!(
        TranscriptProcessor::adjust("\n", base_time(), christmas()),
        Err(TranscriptError::NoTimestamps)
    ));
}

#[test]
fn the_error_has_a_message() {
    assert_eq!(
        TranscriptError::NoTimestamps.message(),
        "No timestamped lines were found in the input file"
    );
}

#[test]
fn a_line_splits_into_stamp_and_rest() {
    let (time, rest) = parse_timestamp_line("01:02:03 hello").unwrap();
    assert_eq!(time.num_seconds_from_midnight(), 3723);
    assert_eq!(rest, " hello");
    assert!(parse_timestamp_line("hello 01:02:03").is_none());
    assert!(parse_timestamp_line("01:02:0").is_none());
    assert!(parse_timestamp_line("ab:cd:ef").is_none());
    assert!(parse_timestamp_line("é1:02:03").is_none());
}

/// The adjusted text put together from the pieces between the line feeds.
fn adjusted_by_pieces(input: &str, start: TimeOfDay, date: Date) -> Option<String> {
    let mut pieces = Vec::new();
    let mut stamped = false;
    for piece in input.split('\n') {
        match parse_timestamp_line(piece) {
            Some((relative, rest)) => {
                stamped = true;
                let stamp = apply_offset(start, date, relative);
                pieces.push(format!("{}{}", stamp.time().format_clock(), rest));
            }
            None => pieces.push(piece.to_string()),
        }
    }
    if stamped {
        Some(pieces.join("\n"))
    } else {
        None
    }
}

#[test]
fn only_the_stamps_of_a_text_change() {
    let inputs = [
        "",
        "\n",
        "\r\n",
        "\r",
        "00:00:01",
        "00:00:01\n",
        "00:00:01\r\n",
        "00:00:01\r",
        "00:00:01 a\r\n\r\n00:00:02 b",
        "\n\n00:00:01 a\n\n",
        "x\r\r\n00:00:01 a\n\r",
        "x\n00:00:01 a\nlast line",
        "23:59:59 a\n00:00:00 b\n",
        "00:00:01 é\nñ 00:00:01\n",
        "   \n\t00:00:01 tab\n00:00:01\ttab\n",
    ];
    for input in inputs {
        let expected = adjusted_by_pieces(input, base_time(), christmas());
        let actual = TranscriptProcessor::adjust(input, base_time(), christmas())
            .ok()
            .map(|update| update.body);
        assert_eq!(actual, expected, "{:?}", input);
        if let Some(body) = actual {
            assert_eq!(body.len(), input.len());
            assert_eq!(body.matches('\n').count(), input.matches('\n').count());
            assert_eq!(body.ends_with('\n'), input.ends_with('\n'));
            for (changed, line) in body.split('\n').zip(input.split('\n')) {
                if changed != line {
                    assert_eq!(changed[8..], line[8..]);
                }
            }
        }
    }
}

#[test]
fn a_text_can_be_adjusted_unless_a_stamp_leaves_the_calendar() {
    let last = Date::from_ymd_opt(262142, 12, 31).unwrap();
    let before = Date::from_ymd_opt(262142, 12, 30).unwrap();
    let late = TimeOfDay::from_hms_opt(23, 0, 0).unwrap();
    assert!(TranscriptProcessor::can_adjust("00:59:59 a\n", late, last));
    assert!(TranscriptProcessor::can_adjust("no stamp\n01:00:0 b\n", late, last));
    assert!(!TranscriptProcessor::can_adjust("01:00:00 a\n", late, last));
    assert!(!TranscriptProcessor::can_adjust("x\n00:00:01 a\r\n\n23:59:59 b", late, last));
    assert!(TranscriptProcessor::can_adjust("01:00:00 a\n", late, before));
    assert!(TranscriptProcessor::can_adjust("", late, last));
}

#[test]
fn the_last_date_of_the_calendar_takes_stamps_before_midnight() {
    let last = Date::from_ymd_opt(262142, 12, 31).unwrap();
    let start = TimeOfDay::from_hms_opt(22, 0, 0).unwrap();
    let result = TranscriptProcessor::adjust("00:00:01 a\n01:59:59 b\n", start, last).unwrap();
    assert_eq!(result.body, "22:00:01 a\n23:59:59 b\n");
    assert_eq!(result.first_timestamp.date(), last);
    assert_eq!(result.last_timestamp.date(), last);
    let stamp = apply_offset(start, last, TimeOfDay::from_hms_opt(1, 59, 59).unwrap());
    assert_eq!(stamp.date(), last);
    assert_eq!(stamp.time().format_clock(), "23:59:59");
}
