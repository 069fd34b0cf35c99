//! Adjusting one transcript and naming the file that takes the result.
//!
//! The output is filed by the time span that the adjusted transcript covers:
//! its name holds the first and the last absolute time, and its date is that
//! of the last timestamp, so that a recording which runs past midnight is
//! filed under the day on which it ends.
//!
//! The library touches no file. An update is carried out step by step: the
//! library says which step comes next, the caller carries it out and hands
//! back what came of it.

use crate::calendar::{
    compact_clock_text, compact_date_text, year_text, CivilDate, CivilDateTime, DateTime, Date,
    TimeOfDay,
};
use crate::cli::UpdateArgs;
use crate::merge::MAX_FILE_SIZE;
use crate::paths::{joined, push_joined};
use crate::text::{chars_of, string_of, two_digits};
use crate::transcript::{
    adjusted_text, fits_calendar, has_backward_step, line_stamps, lines_of, TranscriptError,
    TranscriptProcessor,
};
use vstd::prelude::*;

verus! {

/// What is to be adjusted, and where the result goes.
#[derive(Debug, Clone)]
pub struct UpdateRequest {
    /// The file whose timestamps are adjusted.
    pub input_file: String,
    /// The directory below which a nested output is written.
    pub output_dir: String,
    /// Whether the output is written flat, into the working directory.
    pub flatten_output: bool,
    /// The time of day at which the recording began.
    pub start_time: TimeOfDay,
    /// The date on which the recording began.
    pub date: Date,
}

impl UpdateRequest {
    /// The request that the arguments of the command describe. Without an
    /// output directory the output goes below the working directory.
    pub fn from(args: UpdateArgs) -> (r: UpdateRequest)
        ensures
            r.input_file == args.file,
            r.output_dir@ == (match args.output_dir {
                Some(dir) => dir@,
                None => Seq::<char>::empty(),
            }),
            r.flatten_output == args.flat,
            r.start_time == args.time,
            r.date == args.date,
    {
        UpdateRequest {
            input_file: args.file,
            output_dir: match args.output_dir {
                Some(dir) => dir,
                None => String::new(),
            },
            flatten_output: args.flat,
            start_time: args.time,
            date: args.date,
        }
    }
}

/// What an update did.
#[derive(Debug)]
pub struct UpdateOutcome {
    /// The path of the adjusted transcript.
    pub output_path: String,
    /// Whether some timestamp of the input is earlier than the one before
    /// it.
    pub has_out_of_order_timestamps: bool,
}

/// Why an update could not be carried out.
#[derive(Debug)]
pub enum UpdateError {
    /// The transcript could not be adjusted.
    Transcript(TranscriptError),
    /// Reading or writing a file failed.
    Io(String),
    /// The input, of the first size, is larger than the second.
    FileTooLarge(u64, u64),
}

impl From<TranscriptError> for UpdateError {
    fn from(error: TranscriptError) -> (r: UpdateError) {
        UpdateError::Transcript(error)
    }
}

impl vstd::std_specs::convert::FromSpecImpl<TranscriptError> for UpdateError {
    open spec fn obeys_from_spec() -> bool {
        true
    }

    open spec fn from_spec(error: TranscriptError) -> UpdateError {
        UpdateError::Transcript(error)
    }
}

/// The name of a nested segment: `HHMMSS-HHMMSS.txt`, from the first and
/// the last time in seconds from midnight.
pub open spec fn nested_file_name(first: int, last: int) -> Seq<char> {
    compact_clock_text(first) + seq!['-'] + compact_clock_text(last) + seq!['.', 't', 'x', 't']
}

/// The name of a flat segment: `YYYYMMDD_HHMMSS_HHMMSS.txt`.
pub open spec fn flat_file_name(date: CivilDate, first: int, last: int) -> Seq<char> {
    compact_date_text(date) + seq!['_'] + compact_clock_text(first) + seq!['_']
        + compact_clock_text(last) + seq!['.', 't', 'x', 't']
}

/// The directory of a date, below some root: `YYYY/MM/DD`.
pub open spec fn date_directory(date: CivilDate) -> Seq<char> {
    joined(joined(year_text(date.year), two_digits(date.month)), two_digits(date.day))
}

/// The path of the output for a transcript whose timestamps run from
/// `first` to `last`. The date is that of `last`. A flat output lies in
/// `current_dir`, a nested one in the directory of its date below
/// `output_dir`.
pub open spec fn output_path_of(
    output_dir: Seq<char>,
    flatten: bool,
    current_dir: Seq<char>,
    first: CivilDateTime,
    last: CivilDateTime,
) -> Seq<char> {
    if flatten {
        joined(current_dir, flat_file_name(last.date, first.secs, last.secs))
    } else {
        joined(
            joined(output_dir, date_directory(last.date)),
            nested_file_name(first.secs, last.secs),
        )
    }
}

/// Appends `.txt`.
fn push_extension(name: &mut Vec<char>)
    ensures
        final(name)@ == old(name)@ + seq!['.', 't', 'x', 't'],
{
    name.push('.');
    name.push('t');
    name.push('x');
    name.push('t');
    assert(name@ =~= old(name)@ + seq!['.', 't', 'x', 't']);
}

/// The path of the output for a transcript whose timestamps run from
/// `first` to `last`. `current_dir` is the working directory, in which a
/// flat output lies.
pub fn resolve_output_path(
    request: &UpdateRequest,
    first: DateTime,
    last: DateTime,
    current_dir: &str,
) -> (r: String)
    ensures
        r@ == output_path_of(
            request.output_dir@,
            request.flatten_output,
            current_dir@,
            first@,
            last@,
        ),
{
    let effective_date = last.date();
    if request.flatten_output {
        let mut name: Vec<char> = Vec::new();
        effective_date.push_compact(&mut name);
        name.push('_');
        first.time().push_compact(&mut name);
        name.push('_');
        last.time().push_compact(&mut name);
        push_extension(&mut name);
        assert(name@ =~= flat_file_name(last@.date, first@.secs, last@.secs));
        let mut path = chars_of(current_dir);
        push_joined(&mut path, &name);
        string_of(&path)
    } else {
        let mut name: Vec<char> = Vec::new();
        first.time().push_compact(&mut name);
        name.push('-');
        last.time().push_compact(&mut name);
        push_extension(&mut name);
        assert(name@ =~= nested_file_name(first@.secs, last@.secs));
        let mut date_dir: Vec<char> = Vec::new();
        effective_date.push_year(&mut date_dir);
        let mut month: Vec<char> = Vec::new();
        effective_date.push_month(&mut month);
        push_joined(&mut date_dir, &month);
        let mut day: Vec<char> = Vec::new();
        effective_date.push_day(&mut day);
        push_joined(&mut date_dir, &day);
        let mut path = chars_of(request.output_dir.as_str());
        push_joined(&mut path, &date_dir);
        push_joined(&mut path, &name);
        string_of(&path)
    }
}

/// The mathematical model of an [`UpdateError`].
pub enum UpdateFailure {
    Transcript(TranscriptError),
    Io(Seq<char>),
    FileTooLarge(u64, u64),
}

impl View for UpdateError {
    type V = UpdateFailure;

    open spec fn view(&self) -> UpdateFailure {
        match self {
            UpdateError::Transcript(error) => UpdateFailure::Transcript(*error),
            UpdateError::Io(reason) => UpdateFailure::Io(reason@),
            UpdateError::FileTooLarge(size, max) => UpdateFailure::FileTooLarge(*size, *max),
        }
    }
}

/// The mathematical model of an [`UpdateOutcome`].
pub struct UpdateOutcomeView {
    pub output_path: Seq<char>,
    pub has_out_of_order_timestamps: bool,
}

impl View for UpdateOutcome {
    type V = UpdateOutcomeView;

    open spec fn view(&self) -> UpdateOutcomeView {
        UpdateOutcomeView {
            output_path: self.output_path@,
            has_out_of_order_timestamps: self.has_out_of_order_timestamps,
        }
    }
}

/// The mathematical model of an update that is under way.
pub struct UpdateView {
    /// The path of the input.
    pub input_file: Seq<char>,
    /// The directory below which a nested output is written.
    pub output_dir: Seq<char>,
    /// Whether the output is written flat.
    pub flatten: bool,
    /// The anchor time, in seconds from midnight.
    pub start: int,
    /// The anchor date.
    pub date: CivilDate,
    /// The adjusted text, once the input is read.
    pub body: Seq<char>,
    /// The timestamps of the input, once it is read.
    pub stamps: Seq<CivilDateTime>,
    /// The path of the output, once it is known.
    pub output_path: Seq<char>,
}

/// The mathematical model of an [`UpdateStep`].
pub enum UpdateStepView {
    Measure(UpdateView),
    Read(UpdateView),
    CurrentDir(UpdateView),
    Write(UpdateView),
    Finish(UpdateOutcomeView),
    Fail(UpdateFailure),
}

/// The first step of an update: the size of the input is asked for.
pub open spec fn begun(
    input_file: Seq<char>,
    output_dir: Seq<char>,
    flatten: bool,
    start: int,
    date: CivilDate,
) -> UpdateStepView {
    UpdateStepView::Measure(
        UpdateView {
            input_file,
            output_dir,
            flatten,
            start,
            date,
            body: Seq::empty(),
            stamps: Seq::empty(),
            output_path: Seq::empty(),
        },
    )
}

/// The step after the size of the input was found to be `size`: an input
/// above the limit ends the update, any other is read.
pub open spec fn after_size(run: UpdateView, size: u64) -> UpdateStepView {
    if size > MAX_FILE_SIZE {
        UpdateStepView::Fail(UpdateFailure::FileTooLarge(size, MAX_FILE_SIZE))
    } else {
        UpdateStepView::Read(run)
    }
}

/// The step after the input was read and held `contents`: the text is
/// adjusted. A text without time stamps ends the update. A nested output
/// is written to the path that its timestamps give; for a flat output the
/// working directory is asked for first.
pub open spec fn after_read(run: UpdateView, contents: Seq<char>) -> UpdateStepView {
    let stamps = line_stamps(lines_of(contents), run.date, run.start);
    let next = UpdateView { body: adjusted_text(contents, run.start), stamps, ..run };
    if stamps.len() == 0 {
        UpdateStepView::Fail(UpdateFailure::Transcript(TranscriptError::NoTimestamps))
    } else if run.flatten {
        UpdateStepView::CurrentDir(next)
    } else {
        UpdateStepView::Write(
            UpdateView {
                output_path: output_path_of(
                    run.output_dir,
                    false,
                    Seq::empty(),
                    stamps.first(),
                    stamps.last(),
                ),
                ..next
            },
        )
    }
}

/// The step after the working directory was found to be `current_dir`:
/// the flat output is written into it.
pub open spec fn after_current_dir(run: UpdateView, current_dir: Seq<char>) -> UpdateStepView {
    UpdateStepView::Write(
        UpdateView {
            output_path: output_path_of(
                run.output_dir,
                true,
                current_dir,
                run.stamps.first(),
                run.stamps.last(),
            ),
            ..run
        },
    )
}

/// The step after the output was written: the update has finished, and
/// reports the path of the output and whether the timestamps of the input
/// were out of order.
pub open spec fn after_written(run: UpdateView) -> UpdateStepView {
    UpdateStepView::Finish(
        UpdateOutcomeView {
            output_path: run.output_path,
            has_out_of_order_timestamps: has_backward_step(run.stamps),
        },
    )
}

/// The end of an update in which the file system failed the caller, for
/// the given reason.
pub open spec fn after_failure(reason: Seq<char>) -> UpdateStepView {
    UpdateStepView::Fail(UpdateFailure::Io(reason))
}

/// An update that is under way.
struct UpdateRun {
    request: UpdateRequest,
    body: String,
    out_of_order: bool,
    stamps: Ghost<Seq<CivilDateTime>>,
    output_path: String,
}

impl View for UpdateRun {
    type V = UpdateView;

    closed spec fn view(&self) -> UpdateView {
        UpdateView {
            input_file: self.request.input_file@,
            output_dir: self.request.output_dir@,
            flatten: self.request.flatten_output,
            start: self.request.start_time@,
            date: self.request.date@,
            body: self.body@,
            stamps: self.stamps@,
            output_path: self.output_path@,
        }
    }
}

impl UpdateRun {
    #[verifier::type_invariant]
    spec fn well_formed(self) -> bool {
        self.out_of_order == has_backward_step(self.stamps@)
    }
}

/// The step to ask for the size of the input. The caller answers with the
/// size in bytes.
pub struct Measuring {
    run: UpdateRun,
}

/// The step to read the input. The caller answers with its text.
pub struct Reading {
    run: UpdateRun,
}

/// The step to ask for the working directory. The caller answers with its
/// path.
pub struct Placing {
    run: UpdateRun,
    first: DateTime,
    last: DateTime,
}

/// The step to write the adjusted text to the output, in one piece, after
/// making the directories above it. The caller answers when that is done.
pub struct Writing {
    run: UpdateRun,
}

/// What comes next in an update: a step for the caller to carry out, or
/// the end of the update.
pub enum UpdateStep {
    Measure(Measuring),
    Read(Reading),
    CurrentDir(Placing),
    Write(Writing),
    /// The update is done.
    Finish(UpdateOutcome),
    /// The update has failed.
    Fail(UpdateError),
}

impl View for Measuring {
    type V = UpdateView;

    closed spec fn view(&self) -> UpdateView {
        self.run@
    }
}

impl View for Reading {
    type V = UpdateView;

    closed spec fn view(&self) -> UpdateView {
        self.run@
    }
}

impl View for Placing {
    type V = UpdateView;

    closed spec fn view(&self) -> UpdateView {
        self.run@
    }
}

impl View for Writing {
    type V = UpdateView;

    closed spec fn view(&self) -> UpdateView {
        self.run@
    }
}

impl View for UpdateStep {
    type V = UpdateStepView;

    open spec fn view(&self) -> UpdateStepView {
        match self {
            UpdateStep::Measure(step) => UpdateStepView::Measure(step@),
            UpdateStep::Read(step) => UpdateStepView::Read(step@),
            UpdateStep::CurrentDir(step) => UpdateStepView::CurrentDir(step@),
            UpdateStep::Write(step) => UpdateStepView::Write(step@),
            UpdateStep::Finish(outcome) => UpdateStepView::Finish(outcome@),
            UpdateStep::Fail(error) => UpdateStepView::Fail(error@),
        }
    }
}

/// Begins the update that `request` asks for.
pub fn begin(request: UpdateRequest) -> (r: UpdateStep)
    ensures
        r@ == begun(
            request.input_file@,
            request.output_dir@,
            request.flatten_output,
            request.start_time@,
            request.date@,
        ),
{
    let run = UpdateRun {
        request,
        body: String::new(),
        out_of_order: false,
        stamps: Ghost(Seq::empty()),
        output_path: String::new(),
    };
    UpdateStep::Measure(Measuring { run })
}

impl Measuring {
    /// The path of the input.
    pub fn path(&self) -> (r: &str)
        ensures
            r@ == self@.input_file,
    {
        self.run.request.input_file.as_str()
    }

    /// Goes on with the size of the input.
    pub fn measured(self, size: u64) -> (r: UpdateStep)
        ensures
            r@ == after_size(self@, size),
    {
        if size > MAX_FILE_SIZE {
            UpdateStep::Fail(UpdateError::FileTooLarge(size, MAX_FILE_SIZE))
        } else {
            UpdateStep::Read(Reading { run: self.run })
        }
    }

    /// Ends the update where the file system failed the caller.
    pub fn failed(self, reason: String) -> (r: UpdateStep)
        ensures
            r@ == after_failure(reason@),
    {
        UpdateStep::Fail(UpdateError::Io(reason))
    }
}

impl Reading {
    /// The path of the input.
    pub fn path(&self) -> (r: &str)
        ensures
            r@ == self@.input_file,
    {
        self.run.request.input_file.as_str()
    }

    /// Whether the update can go on with the text `contents`: whether
    /// every timestamp falls on a date of the calendar. That fails only for
    /// an anchor on the last date of the calendar and a text with a time
    /// stamp that passes midnight.
    pub fn accepts(&self, contents: &str) -> (r: bool)
        ensures
            r == fits_calendar(contents@, self@.date, self@.start),
    {
        TranscriptProcessor::can_adjust(
            contents,
            self.run.request.start_time,
            self.run.request.date,
        )
    }

    /// Goes on with the text of the input.
    ///
    /// Every timestamp must fall on a date of the calendar: where the
    /// anchor lies on the last date, no time stamp of the text may pass
    /// midnight.
    pub fn read(self, contents: String) -> (r: UpdateStep)
        requires
            fits_calendar(contents@, self@.date, self@.start),
        ensures
            r@ == after_read(self@, contents@),
    {
        proof {
            use_type_invariant(&self.run);
        }
        let run = self.run;
        let adjusted = TranscriptProcessor::adjust(
            contents.as_str(),
            run.request.start_time,
            run.request.date,
        );
        match adjusted {
            Err(error) => UpdateStep::Fail(UpdateError::from(error)),
            Ok(transcript) => {
                let ghost stamps = line_stamps(
                    lines_of(contents@),
                    run.request.date@,
                    run.request.start_time@,
                );
                let output_path = if run.request.flatten_output {
                    run.output_path
                } else {
                    resolve_output_path(
                        &run.request,
                        transcript.first_timestamp,
                        transcript.last_timestamp,
                        "",
                    )
                };
                let flatten = run.request.flatten_output;
                let next = UpdateRun {
                    request: run.request,
                    body: transcript.body,
                    out_of_order: transcript.has_out_of_order_timestamps,
                    stamps: Ghost(stamps),
                    output_path,
                };
                if flatten {
                    UpdateStep::CurrentDir(
                        Placing {
                            run: next,
                            first: transcript.first_timestamp,
                            last: transcript.last_timestamp,
                        },
                    )
                } else {
                    UpdateStep::Write(Writing { run: next })
                }
            },
        }
    }

    /// Ends the update where the file system failed the caller.
    pub fn failed(self, reason: String) -> (r: UpdateStep)
        ensures
            r@ == after_failure(reason@),
    {
        UpdateStep::Fail(UpdateError::Io(reason))
    }
}

impl Placing {
    #[verifier::type_invariant]
    spec fn has_stamps(self) -> bool {
        &&& self.run@.flatten
        &&& self.run@.stamps.len() > 0
        &&& self.first@ == self.run@.stamps.first()
        &&& self.last@ == self.run@.stamps.last()
    }

    /// Goes on with the path of the working directory.
    pub fn placed(self, current_dir: &str) -> (r: UpdateStep)
        ensures
            r@ == after_current_dir(self@, current_dir@),
    {
        proof {
            use_type_invariant(&self);
            use_type_invariant(&self.run);
        }
        let run = self.run;
        let output_path = resolve_output_path(&run.request, self.first, self.last, current_dir);
        UpdateStep::Write(Writing { run: UpdateRun { output_path, ..run } })
    }

    /// Ends the update where the file system failed the caller.
    pub fn failed(self, reason: String) -> (r: UpdateStep)
        ensures
            r@ == after_failure(reason@),
    {
        UpdateStep::Fail(UpdateError::Io(reason))
    }
}

impl Writing {
    /// The path of the output.
    pub fn path(&self) -> (r: &str)
        ensures
            r@ == self@.output_path,
    {
        self.run.output_path.as_str()
    }

    /// The text to write.
    pub fn content(&self) -> (r: &str)
        ensures
            r@ == self@.body,
    {
        self.run.body.as_str()
    }

    /// Goes on after the text was written.
    pub fn written(self) -> (r: UpdateStep)
        ensures
            r@ == after_written(self@),
    {
        proof {
            use_type_invariant(&self.run);
        }
        let run = self.run;
        UpdateStep::Finish(
            UpdateOutcome {
                output_path: run.output_path,
                has_out_of_order_timestamps: run.out_of_order,
            },
        )
    }

    /// Ends the update where the file system failed the caller.
    pub fn failed(self, reason: String) -> (r: UpdateStep)
        ensures
            r@ == after_failure(reason@),
    {
        UpdateStep::Fail(UpdateError::Io(reason))
    }
}

} // verus!
