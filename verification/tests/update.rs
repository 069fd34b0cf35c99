use plaud_timestamp::calendar::{Date, DateTime, TimeOfDay};
use plaud_timestamp::cli::{parse_hms, UpdateArgs};
use plaud_timestamp::merge::MAX_FILE_SIZE;
use plaud_timestamp::transcript::TranscriptError;
use plaud_timestamp::update::{
    begin, resolve_output_path, UpdateError, UpdateOutcome, UpdateRequest, UpdateStep,
};

struct Written {
    path: String,
    content: String,
}

fn run(
    request: UpdateRequest,
    size: u64,
    contents: &str,
    current_dir: &str,
) -> (Result<UpdateOutcome, UpdateError>, Vec<&'static str>, Option<Written>) {
    let mut log = Vec::new();
    let mut written = None;
    let mut step = begin(request);
    loop {
        step = match step {
            UpdateStep::Measure(s) => {
                assert_eq!(s.path(), "input.txt");
                log.push("measure");
                s.measured(size)
            }
            UpdateStep::Read(s) => {
                assert_eq!(s.path(), "input.txt");
                log.push("read");
                assert!(s.accepts(contents));
                s.read(contents.to_string())
            }
            UpdateStep::CurrentDir(s) => {
                log.push("cwd");
                s.placed(current_dir)
            }
            UpdateStep::Write(s) => {
                log.push("write");
                written = Some(Written {
                    path: s.path().to_string(),
                    content: s.content().to_string(),
                });
                s.written()
            }
            UpdateStep::Finish(outcome) => return (Ok(outcome), log, written),
            UpdateStep::Fail(error) => return (Err(error), log, written),
        }
    }
}

fn sample_request(flatten: bool) -> UpdateRequest {
    UpdateRequest {
        input_file: String::from("input.txt"),
        output_dir: String::from("output"),
        flatten_output: flatten,
        start_time: TimeOfDay::from_hms_opt(18, 1, 12).unwrap(),
        date: Date::from_ymd_opt(2024, 12, 25).unwrap(),
    }
}

fn make_datetime(date: Date, h: u32, m: u32, s: u32) -> DateTime {
    DateTime::new(date, TimeOfDay::from_hms_opt(h, m, s).unwrap())
}

#[test]
fn builds_nested_output_path() {
    let request = sample_request(false);
    let date = Date::from_ymd_opt(2024, 12, 25).unwrap();
    let first = make_datetime(date, 18, 1, 13);
    let last = make_datetime(date, 18, 37, 36);
    let path = resolve_output_path(&request, first, last, "/work");
    assert_eq!(path, "output/2024/12/25/180113-183736.txt");
}

#[test]
fn builds_flat_output_path() {
    let request = sample_request(true);
    let date = Date::from_ymd_opt(2024, 12, 25).unwrap();
    let first = make_datetime(date, 18, 1, 13);
    let last = make_datetime(date, 18, 37, 36);
    let path = resolve_output_path(&request, first, last, "/work");
    assert!(
        path.ends_with("20241225_180113_183736.txt"),
        "path {:?} did not end with expected filename",
        path
    );
    assert_eq!(path, "/work/20241225_180113_183736.txt");
}

#[test]
fn handles_midnight_overflow_in_path() {
    let request = sample_request(false);
    let date = Date::from_ymd_opt(2024, 12, 25).unwrap();
    let next_day = Date::from_ymd_opt(2024, 12, 26).unwrap();
    let first = make_datetime(date, 23, 30, 0);
    let last = make_datetime(next_day, 0, 30, 0);
    let path = resolve_output_path(&request, first, last, "");
    assert_eq!(path, "output/2024/12/26/233000-003000.txt");
}

#[test]
fn flat_path_takes_the_date_of_the_last_timestamp() {
    let request = sample_request(true);
    let date = Date::from_ymd_opt(2024, 12, 31).unwrap();
    let next_day = Date::from_ymd_opt(2025, 1, 1).unwrap();
    let path = resolve_output_path(
        &request,
        make_datetime(date, 23, 30, 0),
        make_datetime(next_day, 0, 30, 0),
        "cwd",
    );
    assert_eq!(path, "cwd/20250101_233000_003000.txt");
}

#[test]
fn nested_path_without_output_directory_is_relative() {
    let mut request = sample_request(false);
    request.output_dir = String::new();
    let date = Date::from_ymd_opt(2024, 1, 5).unwrap();
    let path = resolve_output_path(
        &request,
        make_datetime(date, 1, 2, 3),
        make_datetime(date, 4, 5, 6),
        "ignored",
    );
    assert_eq!(path, "2024/01/05/010203-040506.txt");
}

#[test]
fn the_size_of_the_input_is_capped() {
    assert_eq!(MAX_FILE_SIZE, 10 * 1024 * 1024);
    let (result, log, written) = run(sample_request(false), MAX_FILE_SIZE, "00:00:01 a\n", "");
    assert!(result.is_ok());
    assert_eq!(log, vec!["measure", "read", "write"]);
    assert!(written.is_some());
    let (result, log, written) = run(sample_request(false), MAX_FILE_SIZE + 1, "00:00:01 a\n", "");
    assert!(matches!(
        result,
        Err(UpdateError::FileTooLarge(size, max)) if size == MAX_FILE_SIZE + 1 && max == MAX_FILE_SIZE
    ));
    assert_eq!(log, vec!["measure"]);
    assert!(written.is_none());
}

#[test]
fn writes_nested_output_by_default() {
    let args = UpdateArgs {
        file: String::from("input.txt"),
        output_dir: None,
        flat: false,
        time: parse_hms("18:01:12").unwrap(),
        date: Date::from_ymd_opt(2024, 12, 25).unwrap(),
    };
    let request = UpdateRequest::from(args);
    assert_eq!(request.output_dir, "");
    let (result, log, written) = run(
        request,
        100,
        "00:00:01 Speaker 1\nLine\n00:00:05 Speaker 2\n",
        "/tmp/x",
    );
    let outcome = result.unwrap();
    let written = written.unwrap();
    assert_eq!(outcome.output_path, "2024/12/25/180113-180117.txt");
    assert_eq!(written.path, "2024/12/25/180113-180117.txt");
    assert_eq!(written.content, "18:01:13 Speaker 1\nLine\n18:01:17 Speaker 2\n");
    assert!(!outcome.has_out_of_order_timestamps);
    assert_eq!(log, vec!["measure", "read", "write"]);
}

#[test]
fn supports_flat_output() {
    let args = UpdateArgs {
        file: String::from("input.txt"),
        output_dir: Some(String::from("elsewhere")),
        flat: true,
        time: parse_hms("18:01:12").unwrap(),
        date: Date::from_ymd_opt(2024, 12, 25).unwrap(),
    };
    let request = UpdateRequest::from(args);
    assert_eq!(request.output_dir, "elsewhere");
    let (result, log, written) = run(
        request,
        100,
        "00:00:01 Speaker 1\nLine\n00:00:05 Speaker 2\n",
        "/tmp/x",
    );
    let outcome = result.unwrap();
    let written = written.unwrap();
    assert_eq!(outcome.output_path, "/tmp/x/20241225_180113_180117.txt");
    assert_eq!(written.path, "/tmp/x/20241225_180113_180117.txt");
    assert_eq!(written.content, "18:01:13 Speaker 1\nLine\n18:01:17 Speaker 2\n");
    assert_eq!(log, vec!["measure", "read", "cwd", "write"]);
}

#[test]
fn a_session_past_midnight_is_filed_under_the_day_it_ends_on() {
    let mut request = sample_request(false);
    request.start_time = TimeOfDay::from_hms_opt(23, 30, 0).unwrap();
    let (result, _, _) = run(request, 1, "00:00:00 a\n01:00:00 b\n", "");
    assert_eq!(
        result.unwrap().output_path,
        "output/2024/12/26/233000-003000.txt"
    );
}

#[test]
fn out_of_order_input_is_reported_but_written() {
    let (result, log, written) = run(sample_request(false), 1, "00:00:05 a\n00:00:02 b\n", "");
    let outcome = result.unwrap();
    assert!(outcome.has_out_of_order_timestamps);
    assert_eq!(outcome.output_path, "output/2024/12/25/180117-180114.txt");
    assert_eq!(written.unwrap().content, "18:01:17 a\n18:01:14 b\n");
    assert_eq!(log, vec!["measure", "read", "write"]);
}

#[test]
fn an_input_without_timestamps_is_refused() {
    for flat in [false, true] {
        let (result, log, written) = run(sample_request(flat), 1, "nothing here\n", "");
        assert!(matches!(
            result,
            Err(UpdateError::Transcript(TranscriptError::NoTimestamps))
        ));
        assert_eq!(log, vec!["measure", "read"]);
        assert!(written.is_none());
    }
}

#[test]
fn times_are_read_strictly() {
    assert_eq!(
        parse_hms("18:06:13").unwrap(),
        TimeOfDay::from_hms_opt(18, 6, 13).unwrap()
    );
    assert_eq!(parse_hms("00:00:00").unwrap().num_seconds_from_midnight(), 0);
    for bad in ["18:06", "18:06:13 ", " 18:06:13", "24:00:00", "18:60:00", "18:06:60", "1:2:3", "", "noon"] {
        assert_eq!(
            parse_hms(bad).unwrap_err(),
            format!("Invalid time '{}'. Use HH:MM:SS (e.g. 18:06:13).", bad)
        );
    }
}

#[test]
fn a_failure_of_the_file_system_ends_the_update() {
    match begin(sample_request(true)) {
        UpdateStep::Measure(s) => match s.failed(String::from("no such file")) {
            UpdateStep::Fail(UpdateError::Io(reason)) => assert_eq!(reason, "no such file"),
            _ => panic!("the update went on"),
        },
        _ => panic!("the size is not asked for"),
    }
    let placing = match begin(sample_request(true)) {
        UpdateStep::Measure(s) => match s.measured(1) {
            UpdateStep::Read(s) => s.read(String::from("00:00:01 a")),
            _ => panic!("the input is not read"),
        },
        _ => panic!("the size is not asked for"),
    };
    match placing {
        UpdateStep::CurrentDir(s) => match s.failed(String::from("no working directory")) {
            UpdateStep::Fail(UpdateError::Io(reason)) => {
                assert_eq!(reason, "no working directory")
            }
            _ => panic!("the update went on"),
        },
        _ => panic!("the working directory is not asked for"),
    }
}

#[test]
fn an_update_on_the_last_date_goes_on_unless_a_stamp_passes_midnight() {
    let mut request = sample_request(false);
    request.date = Date::from_ymd_opt(262142, 12, 31).unwrap();
    request.start_time = TimeOfDay::from_hms_opt(23, 0, 0).unwrap();
    match begin(request.clone()) {
        UpdateStep::Measure(s) => match s.measured(1) {
            UpdateStep::Read(s) => {
                assert!(!s.accepts("01:00:00 a\n"));
                assert!(s.accepts("00:59:59 a\n"));
            }
            _ => panic!("the input is not read"),
        },
        _ => panic!("the size is not asked for"),
    }
    let (result, _, written) = run(request, 1, "00:59:59 a\n", "");
    assert_eq!(
        result.unwrap().output_path,
        "output/+262142/12/31/235959-235959.txt"
    );
    assert_eq!(written.unwrap().content, "23:59:59 a\n");
}
