//! A merge carried out step by step.
//!
//! The library touches no file. It says which step comes next, the caller
//! carries the step out and hands back what came of it, and from that the
//! library decides the step after. Each kind of step is a type of its own
//! that takes the one answer that fits it, and a merge that has failed or
//! finished offers no further step; so the stages cannot be taken out of
//! order, and nothing is written before every check has passed.

use crate::merge::{
    canonical_texts, concatenate, exclude_output, has_identity, identity_of, merged_text, optional_text, other_than,
    output_identity, plan, planned, same_identity, MergeError, MergeFailure, MergeOutcome, MergeRequest,
    MAX_FILE_SIZE,
};
use crate::ordering::texts;
use vstd::prelude::*;

verus! {

/// Where a merge stands: what the step that is under way is for.
#[derive(Clone, Copy, Debug, PartialEq, Eq, Structural)]
pub enum Stage {
    /// A pattern is expanded.
    Expanding,
    /// The size of a collected file is asked for.
    Measuring,
    /// The canonical path of the output is asked for, before the merge.
    LocatingOutput,
    /// The canonical path of an ordered file is asked for.
    LocatingFile,
    /// A source is read.
    Reading,
    /// The merged text is written.
    Writing,
    /// The canonical path of the output is asked for again, after it was
    /// written.
    RelocatingOutput,
    /// The canonical path of a source is asked for, before it is deleted.
    RelocatingSource,
    /// A source is deleted.
    Removing,
}

/// The mathematical model of a merge that is under way.
pub struct RunView {
    /// The patterns of the request.
    pub patterns: Seq<Seq<char>>,
    /// The output that the caller chose, if any.
    pub output: Option<Seq<char>>,
    /// Whether the sources are kept.
    pub no_delete: bool,
    /// What the step under way is for.
    pub stage: Stage,
    /// Which pattern, file or source the step under way is about.
    pub index: int,
    /// The matches of the patterns expanded so far.
    pub collected: Seq<Seq<char>>,
    /// The files in their order, each once.
    pub files: Seq<Seq<char>>,
    /// The path of the output.
    pub output_path: Seq<char>,
    /// The identity of the output, as it was last asked for.
    pub output_id: Seq<char>,
    /// The canonical paths of the files located so far.
    pub canonical: Seq<Option<Seq<char>>>,
    /// The files without the output: what is merged, and deleted after.
    pub sources: Seq<Seq<char>>,
    /// The texts of the sources read so far.
    pub segments: Seq<Seq<char>>,
    /// The merged text, once every source is read.
    pub merged: Seq<char>,
}

/// The mathematical model of a [`MergeOutcome`].
pub struct OutcomeView {
    pub files: Seq<Seq<char>>,
    pub output_path: Seq<char>,
}

/// The mathematical model of a [`MergeStep`].
pub enum StepView {
    Expand(RunView),
    Measure(RunView),
    Canonicalize(RunView),
    Read(RunView),
    Write(RunView),
    Remove(RunView),
    Finish(OutcomeView),
    Fail(MergeFailure),
}

impl RunView {
    /// Whether the step under way is about something that exists.
    pub open spec fn wf(self) -> bool {
        match self.stage {
            Stage::Expanding => 0 <= self.index < self.patterns.len(),
            Stage::Measuring => 0 <= self.index < self.collected.len(),
            Stage::LocatingFile => 0 <= self.index < self.files.len() && self.canonical.len()
                == self.index,
            Stage::Reading => 0 <= self.index < self.sources.len() && self.segments.len()
                == self.index,
            Stage::RelocatingSource | Stage::Removing => 0 <= self.index < self.sources.len(),
            Stage::LocatingOutput | Stage::Writing | Stage::RelocatingOutput => true,
        }
    }

    /// The pattern or path that the step under way is about.
    pub open spec fn subject(self) -> Seq<char> {
        match self.stage {
            Stage::Expanding => self.patterns[self.index],
            Stage::Measuring => self.collected[self.index],
            Stage::LocatingFile => self.files[self.index],
            Stage::Reading | Stage::RelocatingSource | Stage::Removing => self.sources[self.index],
            Stage::LocatingOutput | Stage::Writing | Stage::RelocatingOutput => self.output_path,
        }
    }

    /// The same merge at another step.
    pub open spec fn at(self, stage: Stage, index: int) -> RunView {
        RunView { stage, index, ..self }
    }

    /// What the merge reports when it has finished.
    pub open spec fn outcome(self) -> OutcomeView {
        OutcomeView { files: self.sources, output_path: self.output_path }
    }
}

/// The first step of a merge: the first pattern is expanded. A request
/// without patterns goes on as if every pattern were expanded.
pub open spec fn begun(patterns: Seq<Seq<char>>, output: Option<Seq<char>>, no_delete: bool) -> StepView {
    let run = RunView {
        patterns,
        output,
        no_delete,
        stage: Stage::Expanding,
        index: 0,
        collected: Seq::empty(),
        files: Seq::empty(),
        output_path: Seq::empty(),
        output_id: Seq::empty(),
        canonical: Seq::empty(),
        sources: Seq::empty(),
        segments: Seq::empty(),
        merged: Seq::empty(),
    };
    if patterns.len() > 0 {
        StepView::Expand(run)
    } else {
        after_measuring(run)
    }
}

/// The step after a pattern was expanded to `matches`. A pattern without
/// a match ends the merge. Else the next pattern is expanded, and after the
/// last one the size of the first file is asked for.
pub open spec fn after_matches(run: RunView, matches: Seq<Seq<char>>) -> StepView {
    if matches.len() == 0 {
        StepView::Fail(MergeFailure::NoMatches(run.patterns[run.index]))
    } else {
        let next = RunView { collected: run.collected + matches, ..run };
        if run.index + 1 < run.patterns.len() {
            StepView::Expand(next.at(Stage::Expanding, run.index + 1))
        } else {
            StepView::Measure(next.at(Stage::Measuring, 0))
        }
    }
}

/// The step after the size of a file was found to be `size`. A file above
/// the limit ends the merge. Else the size of the next file is asked for,
/// and after the last one the files are ordered.
pub open spec fn after_size(run: RunView, size: u64) -> StepView {
    if size > MAX_FILE_SIZE {
        StepView::Fail(
            MergeFailure::FileTooLarge {
                path: run.collected[run.index],
                size,
                max: MAX_FILE_SIZE,
            },
        )
    } else if run.index + 1 < run.collected.len() {
        StepView::Measure(run.at(Stage::Measuring, run.index + 1))
    } else {
        after_measuring(run)
    }
}

/// The step after every file was measured: the files are ordered and the
/// output path is resolved. Where that fails the merge ends; else the
/// canonical path of the output is asked for.
pub open spec fn after_measuring(run: RunView) -> StepView {
    match planned(run.output, run.collected) {
        Err(failure) => StepView::Fail(failure),
        Ok(found) => StepView::Canonicalize(
            RunView { files: found.0, output_path: found.1, ..run }.at(Stage::LocatingOutput, 0),
        ),
    }
}

/// The step after the file system gave the canonical path `canonical`, or
/// none, for the path that was asked about.
///
/// Before the merge, the output and then each file is located; after the
/// last file the output is taken out of the files. After the merge, the
/// output is located again and then each source in turn: a source whose
/// identity is that of the output is passed over, any other is deleted.
pub open spec fn after_located(run: RunView, canonical: Option<Seq<char>>) -> StepView {
    match run.stage {
        Stage::LocatingOutput => {
            let next = RunView {
                output_id: identity_of(run.output_path, canonical),
                canonical: Seq::empty(),
                ..run
            };
            if run.files.len() > 0 {
                StepView::Canonicalize(next.at(Stage::LocatingFile, 0))
            } else {
                after_locating(next)
            }
        },
        Stage::LocatingFile => {
            let next = RunView { canonical: run.canonical.push(canonical), ..run };
            if run.index + 1 < run.files.len() {
                StepView::Canonicalize(next.at(Stage::LocatingFile, run.index + 1))
            } else {
                after_locating(next)
            }
        },
        Stage::RelocatingOutput => from_source(
            RunView { output_id: identity_of(run.output_path, canonical), ..run },
            0,
        ),
        Stage::RelocatingSource => if has_identity(
            run.sources[run.index],
            canonical,
            run.output_id,
        ) {
            from_source(run, run.index + 1)
        } else {
            StepView::Remove(run.at(Stage::Removing, run.index))
        },
        _ => StepView::Canonicalize(run),
    }
}

/// The step after every file was located: the files whose identity is
/// that of the output are left out, and the first of the others is read.
pub open spec fn after_locating(run: RunView) -> StepView {
    let next = RunView {
        sources: other_than(run.files, run.canonical, run.output_id),
        segments: Seq::empty(),
        ..run
    };
    if next.sources.len() > 0 {
        StepView::Read(next.at(Stage::Reading, 0))
    } else {
        before_writing(next)
    }
}

/// The step after a source was read and held `content`: the next source
/// is read, and after the last one the merged text is written.
pub open spec fn after_read(run: RunView, content: Seq<char>) -> StepView {
    let next = RunView { segments: run.segments.push(content), ..run };
    if run.index + 1 < run.sources.len() {
        StepView::Read(next.at(Stage::Reading, run.index + 1))
    } else {
        before_writing(next)
    }
}

/// The step that writes the merged text of the segments to the output.
pub open spec fn before_writing(run: RunView) -> StepView {
    StepView::Write(RunView { merged: merged_text(run.segments), ..run }.at(Stage::Writing, 0))
}

/// The step after the output was written: the merge has finished if the
/// sources are kept; else the output is located again.
pub open spec fn after_written(run: RunView) -> StepView {
    if run.no_delete {
        StepView::Finish(run.outcome())
    } else {
        StepView::Canonicalize(run.at(Stage::RelocatingOutput, 0))
    }
}

/// The step that goes on with the source at `index`: it is located, or the
/// merge has finished if there is no such source.
pub open spec fn from_source(run: RunView, index: int) -> StepView {
    if index < run.sources.len() {
        StepView::Canonicalize(run.at(Stage::RelocatingSource, index))
    } else {
        StepView::Finish(run.outcome())
    }
}

/// The step after a source was deleted: the merge goes on with the next
/// source.
pub open spec fn after_removed(run: RunView) -> StepView {
    from_source(run, run.index + 1)
}

/// The end of a merge whose pattern is no well-formed pattern, for the
/// given reason.
pub open spec fn after_invalid_pattern(run: RunView, reason: Seq<char>) -> StepView {
    StepView::Fail(MergeFailure::InvalidGlobPattern { pattern: run.patterns[run.index], reason })
}

/// The end of a merge in which a match of a pattern could not be read, for
/// the given reason.
pub open spec fn after_unreadable_match(reason: Seq<char>) -> StepView {
    StepView::Fail(MergeFailure::GlobIteration(reason))
}

/// The end of a merge in which the file system failed the caller, for the
/// given reason.
pub open spec fn after_failure(reason: Seq<char>) -> StepView {
    StepView::Fail(MergeFailure::Io(reason))
}

/// A merge that is under way.
struct MergeRun {
    request: MergeRequest,
    stage: Stage,
    index: usize,
    collected: Vec<String>,
    files: Vec<String>,
    output_path: String,
    output_id: String,
    canonical: Vec<Option<String>>,
    sources: Vec<String>,
    segments: Vec<String>,
    merged: String,
}

impl View for MergeRun {
    type V = RunView;

    closed spec fn view(&self) -> RunView {
        RunView {
            patterns: texts(self.request.patterns@),
            output: optional_text(self.request.output),
            no_delete: self.request.no_delete,
            stage: self.stage,
            index: self.index as int,
            collected: texts(self.collected@),
            files: texts(self.files@),
            output_path: self.output_path@,
            output_id: self.output_id@,
            canonical: canonical_texts(self.canonical@),
            sources: texts(self.sources@),
            segments: texts(self.segments@),
            merged: self.merged@,
        }
    }
}

/// The step to expand a pattern. The caller answers with the paths that
/// the pattern matches.
pub struct Expanding {
    run: MergeRun,
}

/// The step to ask for the size of a file. The caller answers with the
/// size in bytes.
pub struct Measuring {
    run: MergeRun,
}

/// The step to ask the file system for the canonical path of a path. The
/// caller answers with that path, or with nothing where the file system
/// gives none.
pub struct Locating {
    run: MergeRun,
}

/// The step to read a source. The caller answers with its text.
pub struct Reading {
    run: MergeRun,
}

/// The step to write the merged text to the output, in one piece. The
/// caller answers when that is done.
pub struct Writing {
    run: MergeRun,
}

/// The step to delete a source. The caller answers when that is done.
pub struct Removing {
    run: MergeRun,
}

/// What comes next in a merge: a step for the caller to carry out, or the
/// end of the merge.
pub enum MergeStep {
    Expand(Expanding),
    Measure(Measuring),
    Canonicalize(Locating),
    Read(Reading),
    Write(Writing),
    Remove(Removing),
    /// The merge is done.
    Finish(MergeOutcome),
    /// The merge has failed.
    Fail(MergeError),
}

impl View for MergeOutcome {
    type V = OutcomeView;

    open spec fn view(&self) -> OutcomeView {
        OutcomeView { files: texts(self.files@), output_path: self.output_path@ }
    }
}

impl View for Expanding {
    type V = RunView;

    closed spec fn view(&self) -> RunView {
        self.run@
    }
}

impl View for Measuring {
    type V = RunView;

    closed spec fn view(&self) -> RunView {
        self.run@
    }
}

impl View for Locating {
    type V = RunView;

    closed spec fn view(&self) -> RunView {
        self.run@
    }
}

impl View for Reading {
    type V = RunView;

    closed spec fn view(&self) -> RunView {
        self.run@
    }
}

impl View for Writing {
    type V = RunView;

    closed spec fn view(&self) -> RunView {
        self.run@
    }
}

impl View for Removing {
    type V = RunView;

    closed spec fn view(&self) -> RunView {
        self.run@
    }
}

impl View for MergeStep {
    type V = StepView;

    open spec fn view(&self) -> StepView {
        match self {
            MergeStep::Expand(step) => StepView::Expand(step@),
            MergeStep::Measure(step) => StepView::Measure(step@),
            MergeStep::Canonicalize(step) => StepView::Canonicalize(step@),
            MergeStep::Read(step) => StepView::Read(step@),
            MergeStep::Write(step) => StepView::Write(step@),
            MergeStep::Remove(step) => StepView::Remove(step@),
            MergeStep::Finish(outcome) => StepView::Finish(outcome@),
            MergeStep::Fail(error) => StepView::Fail(error@),
        }
    }
}

impl MergeRun {
    #[verifier::type_invariant]
    spec fn well_formed(self) -> bool {
        self@.wf()
    }

    /// The pattern or path that the step under way is about.
    fn subject(&self) -> (r: &str)
        ensures
            r@ == self@.subject(),
    {
        proof {
            use_type_invariant(self);
        }
        match self.stage {
            Stage::Expanding => self.request.patterns[self.index].as_str(),
            Stage::Measuring => self.collected[self.index].as_str(),
            Stage::LocatingFile => self.files[self.index].as_str(),
            Stage::Reading | Stage::RelocatingSource | Stage::Removing => self.sources[self.index].as_str(),
            Stage::LocatingOutput | Stage::Writing | Stage::RelocatingOutput => self.output_path.as_str(),
        }
    }

    fn into_measuring(self) -> (r: MergeStep)
        ensures
            r@ == after_measuring(self@),
    {
        match plan(&self.request, &self.collected) {
            Ok(found) => MergeStep::Canonicalize(
                Locating {
                    run: MergeRun {
                        files: found.files,
                        output_path: found.output_path,
                        stage: Stage::LocatingOutput,
                        index: 0,
                        ..self
                    },
                },
            ),
            Err(error) => MergeStep::Fail(error),
        }
    }

    fn into_locating(self) -> (r: MergeStep)
        requires
            self@.files.len() == self@.canonical.len(),
        ensures
            r@ == after_locating(self@),
    {
        let sources = exclude_output(&self.files, &self.canonical, &self.output_id);
        let next = MergeRun { sources, segments: Vec::new(), stage: Stage::LocatingOutput, ..self };
        assert(next@.segments =~= Seq::<Seq<char>>::empty());
        if next.sources.len() > 0 {
            MergeStep::Read(Reading { run: MergeRun { stage: Stage::Reading, index: 0, ..next } })
        } else {
            next.into_writing()
        }
    }

    fn into_writing(self) -> (r: MergeStep)
        ensures
            r@ == before_writing(self@),
    {
        let merged = concatenate(&self.segments);
        MergeStep::Write(
            Writing { run: MergeRun { merged, stage: Stage::Writing, index: 0, ..self } },
        )
    }

    fn into_source(self, index: usize) -> (r: MergeStep)
        ensures
            r@ == from_source(self@, index as int),
    {
        if index < self.sources.len() {
            MergeStep::Canonicalize(
                Locating { run: MergeRun { stage: Stage::RelocatingSource, index, ..self } },
            )
        } else {
            MergeStep::Finish(self.into_outcome())
        }
    }

    fn into_outcome(self) -> (r: MergeOutcome)
        ensures
            r@ == self@.outcome(),
    {
        MergeOutcome { files: self.sources, output_path: self.output_path }
    }
}

/// Begins the merge that `request` asks for.
pub fn begin(request: MergeRequest) -> (r: MergeStep)
    ensures
        r@ == begun(texts(request.patterns@), optional_text(request.output), request.no_delete),
{
    let first = request.patterns.len() > 0;
    let run = MergeRun {
        request,
        stage: if first {
            Stage::Expanding
        } else {
            Stage::LocatingOutput
        },
        index: 0,
        collected: Vec::new(),
        files: Vec::new(),
        output_path: String::new(),
        output_id: String::new(),
        canonical: Vec::new(),
        sources: Vec::new(),
        segments: Vec::new(),
        merged: String::new(),
    };
    proof {
        assert(run@.collected =~= Seq::<Seq<char>>::empty());
        assert(run@.files =~= Seq::<Seq<char>>::empty());
        assert(run@.canonical =~= Seq::<Option<Seq<char>>>::empty());
        assert(run@.sources =~= Seq::<Seq<char>>::empty());
        assert(run@.segments =~= Seq::<Seq<char>>::empty());
    }
    if first {
        MergeStep::Expand(Expanding { run })
    } else {
        run.into_measuring()
    }
}

impl Expanding {
    #[verifier::type_invariant]
    spec fn in_stage(self) -> bool {
        self.run@.stage == Stage::Expanding
    }

    /// The pattern to expand.
    pub fn pattern(&self) -> (r: &str)
        ensures
            r@ == self@.subject(),
            self@.stage == Stage::Expanding,
            self@.wf(),
    {
        proof {
            use_type_invariant(self);
            use_type_invariant(&self.run);
        }
        self.run.subject()
    }

    /// Goes on with the paths that the pattern matches.
    pub fn matched(self, matches: Vec<String>) -> (r: MergeStep)
        ensures
            r@ == after_matches(self@, texts(matches@)),
    {
        proof {
            use_type_invariant(&self);
            use_type_invariant(&self.run);
        }
        let run = self.run;
        if matches.len() == 0 {
            return MergeStep::Fail(MergeError::NoMatches(run.subject().to_owned()));
        }
        let mut collected = run.collected;
        let mut matches = matches;
        let ghost before = texts(collected@);
        let ghost added = texts(matches@);
        collected.append(&mut matches);
        assert(texts(collected@) =~= before + added);
        let total = run.request.patterns.len();
        if run.index + 1 < total {
            MergeStep::Expand(
                Expanding {
                    run: MergeRun {
                        request: run.request,
                        stage: Stage::Expanding,
                        index: run.index + 1,
                        collected,
                        files: run.files,
                        output_path: run.output_path,
                        output_id: run.output_id,
                        canonical: run.canonical,
                        sources: run.sources,
                        segments: run.segments,
                        merged: run.merged,
                    },
                },
            )
        } else {
            MergeStep::Measure(
                Measuring {
                    run: MergeRun {
                        request: run.request,
                        stage: Stage::Measuring,
                        index: 0,
                        collected,
                        files: run.files,
                        output_path: run.output_path,
                        output_id: run.output_id,
                        canonical: run.canonical,
                        sources: run.sources,
                        segments: run.segments,
                        merged: run.merged,
                    },
                },
            )
        }
    }

    /// Ends the merge where the pattern is no well-formed pattern.
    pub fn invalid(self, reason: String) -> (r: MergeStep)
        ensures
            r@ == after_invalid_pattern(self@, reason@),
    {
        proof {
            use_type_invariant(&self);
            use_type_invariant(&self.run);
        }
        let pattern = self.run.subject().to_owned();
        MergeStep::Fail(MergeError::InvalidGlobPattern { pattern, reason })
    }

    /// Ends the merge where a match of the pattern could not be read.
    pub fn unreadable(self, reason: String) -> (r: MergeStep)
        ensures
            r@ == after_unreadable_match(reason@),
    {
        MergeStep::Fail(MergeError::GlobIteration(reason))
    }
}

impl Measuring {
    #[verifier::type_invariant]
    spec fn in_stage(self) -> bool {
        self.run@.stage == Stage::Measuring
    }

    /// The path of the file whose size is asked for.
    pub fn path(&self) -> (r: &str)
        ensures
            r@ == self@.subject(),
            self@.stage == Stage::Measuring,
            self@.wf(),
    {
        proof {
            use_type_invariant(self);
            use_type_invariant(&self.run);
        }
        self.run.subject()
    }

    /// Goes on with the size of the file.
    pub fn measured(self, size: u64) -> (r: MergeStep)
        ensures
            r@ == after_size(self@, size),
    {
        proof {
            use_type_invariant(&self);
            use_type_invariant(&self.run);
        }
        let run = self.run;
        if size > MAX_FILE_SIZE {
            return MergeStep::Fail(
                MergeError::FileTooLarge {
                    path: run.subject().to_owned(),
                    size,
                    max: MAX_FILE_SIZE,
                },
            );
        }
        let total = run.collected.len();
        if run.index + 1 < total {
            MergeStep::Measure(Measuring { run: MergeRun { index: run.index + 1, ..run } })
        } else {
            run.into_measuring()
        }
    }

    /// Ends the merge where the file system failed the caller.
    pub fn failed(self, reason: String) -> (r: MergeStep)
        ensures
            r@ == after_failure(reason@),
    {
        MergeStep::Fail(MergeError::Io(reason))
    }
}

impl Locating {
    #[verifier::type_invariant]
    spec fn in_stage(self) -> bool {
        self.run@.stage == Stage::LocatingOutput || self.run@.stage == Stage::LocatingFile
            || self.run@.stage == Stage::RelocatingOutput || self.run@.stage
            == Stage::RelocatingSource
    }

    /// The path whose canonical path is asked for.
    pub fn path(&self) -> (r: &str)
        ensures
            r@ == self@.subject(),
            self@.stage == Stage::LocatingOutput || self@.stage == Stage::LocatingFile
                || self@.stage == Stage::RelocatingOutput || self@.stage
                == Stage::RelocatingSource,
            self@.wf(),
    {
        proof {
            use_type_invariant(self);
            use_type_invariant(&self.run);
        }
        self.run.subject()
    }

    /// Goes on with the canonical path that the file system gave, or with
    /// nothing where it gave none.
    pub fn located(self, canonical: Option<String>) -> (r: MergeStep)
        ensures
            r@ == after_located(self@, optional_text(canonical)),
    {
        proof {
            use_type_invariant(&self);
            use_type_invariant(&self.run);
        }
        let run = self.run;
        match run.stage {
            Stage::LocatingOutput => {
                let output_id = output_identity(run.output_path.as_str(), canonical);
                let total = run.files.len();
                let next = MergeRun { output_id, canonical: Vec::new(), ..run };
                assert(next@.canonical =~= Seq::<Option<Seq<char>>>::empty());
                if total > 0 {
                    MergeStep::Canonicalize(
                        Locating { run: MergeRun { stage: Stage::LocatingFile, index: 0, ..next } },
                    )
                } else {
                    next.into_locating()
                }
            },
            Stage::LocatingFile => {
                let mut found = run.canonical;
                let ghost before = canonical_texts(found@);
                found.push(canonical);
                assert(canonical_texts(found@) =~= before.push(
                    optional_text(canonical),
                ));
                let total = run.files.len();
                if run.index + 1 < total {
                    MergeStep::Canonicalize(
                        Locating {
                            run: MergeRun {
                                request: run.request,
                                stage: Stage::LocatingFile,
                                index: run.index + 1,
                                collected: run.collected,
                                files: run.files,
                                output_path: run.output_path,
                                output_id: run.output_id,
                                canonical: found,
                                sources: run.sources,
                                segments: run.segments,
                                merged: run.merged,
                            },
                        },
                    )
                } else {
                    let next = MergeRun {
                        request: run.request,
                        stage: Stage::LocatingOutput,
                        index: run.index,
                        collected: run.collected,
                        files: run.files,
                        output_path: run.output_path,
                        output_id: run.output_id,
                        canonical: found,
                        sources: run.sources,
                        segments: run.segments,
                        merged: run.merged,
                    };
                    next.into_locating()
                }
            },
            Stage::RelocatingOutput => {
                let output_id = output_identity(run.output_path.as_str(), canonical);
                let next = MergeRun { output_id, ..run };
                next.into_source(0)
            },
            Stage::RelocatingSource => {
                if same_identity(&run.sources[run.index], &canonical, &run.output_id) {
                    let total = run.sources.len();
                    let index = run.index + 1;
                    MergeRun { stage: Stage::RelocatingOutput, ..run }.into_source(index)
                } else {
                    MergeStep::Remove(Removing { run: MergeRun { stage: Stage::Removing, ..run } })
                }
            },
            _ => MergeStep::Canonicalize(Locating { run }),
        }
    }

    /// Ends the merge where the file system failed the caller.
    pub fn failed(self, reason: String) -> (r: MergeStep)
        ensures
            r@ == after_failure(reason@),
    {
        MergeStep::Fail(MergeError::Io(reason))
    }
}

impl Reading {
    #[verifier::type_invariant]
    spec fn in_stage(self) -> bool {
        self.run@.stage == Stage::Reading
    }

    /// The path of the source to read.
    pub fn path(&self) -> (r: &str)
        ensures
            r@ == self@.subject(),
            self@.stage == Stage::Reading,
            self@.wf(),
    {
        proof {
            use_type_invariant(self);
            use_type_invariant(&self.run);
        }
        self.run.subject()
    }

    /// Goes on with the text of the source.
    pub fn read(self, content: String) -> (r: MergeStep)
        ensures
            r@ == after_read(self@, content@),
    {
        proof {
            use_type_invariant(&self);
            use_type_invariant(&self.run);
        }
        let run = self.run;
        let mut segments = run.segments;
        let ghost before = texts(segments@);
        segments.push(content);
        assert(texts(segments@) =~= before.push(content@));
        let total = run.sources.len();
        if run.index + 1 < total {
            MergeStep::Read(
                Reading {
                    run: MergeRun {
                        request: run.request,
                        stage: Stage::Reading,
                        index: run.index + 1,
                        collected: run.collected,
                        files: run.files,
                        output_path: run.output_path,
                        output_id: run.output_id,
                        canonical: run.canonical,
                        sources: run.sources,
                        segments,
                        merged: run.merged,
                    },
                },
            )
        } else {
            let next = MergeRun {
                request: run.request,
                stage: Stage::LocatingOutput,
                index: run.index,
                collected: run.collected,
                files: run.files,
                output_path: run.output_path,
                output_id: run.output_id,
                canonical: run.canonical,
                sources: run.sources,
                segments,
                merged: run.merged,
            };
            next.into_writing()
        }
    }

    /// Ends the merge where the file system failed the caller.
    pub fn failed(self, reason: String) -> (r: MergeStep)
        ensures
            r@ == after_failure(reason@),
    {
        MergeStep::Fail(MergeError::Io(reason))
    }
}

impl Writing {
    #[verifier::type_invariant]
    spec fn in_stage(self) -> bool {
        self.run@.stage == Stage::Writing
    }

    /// The path of the output.
    pub fn path(&self) -> (r: &str)
        ensures
            r@ == self@.subject(),
            self@.stage == Stage::Writing,
    {
        proof {
            use_type_invariant(self);
        }
        self.run.subject()
    }

    /// The text to write.
    pub fn content(&self) -> (r: &str)
        ensures
            r@ == self@.merged,
    {
        self.run.merged.as_str()
    }

    /// Goes on after the text was written.
    pub fn written(self) -> (r: MergeStep)
        ensures
            r@ == after_written(self@),
    {
        proof {
            use_type_invariant(&self);
        }
        let run = self.run;
        if run.request.no_delete {
            MergeStep::Finish(run.into_outcome())
        } else {
            MergeStep::Canonicalize(
                Locating { run: MergeRun { stage: Stage::RelocatingOutput, index: 0, ..run } },
            )
        }
    }

    /// Ends the merge where the file system failed the caller.
    pub fn failed(self, reason: String) -> (r: MergeStep)
        ensures
            r@ == after_failure(reason@),
    {
        MergeStep::Fail(MergeError::Io(reason))
    }
}

impl Removing {
    #[verifier::type_invariant]
    spec fn in_stage(self) -> bool {
        self.run@.stage == Stage::Removing
    }

    /// The path of the source to delete.
    pub fn path(&self) -> (r: &str)
        ensures
            r@ == self@.subject(),
            self@.stage == Stage::Removing,
            self@.wf(),
    {
        proof {
            use_type_invariant(self);
            use_type_invariant(&self.run);
        }
        self.run.subject()
    }

    /// Goes on after the source was deleted.
    pub fn removed(self) -> (r: MergeStep)
        ensures
            r@ == after_removed(self@),
    {
        proof {
            use_type_invariant(&self);
            use_type_invariant(&self.run);
        }
        let run = self.run;
        let total = run.sources.len();
        let index = run.index + 1;
        MergeRun { stage: Stage::RelocatingOutput, ..run }.into_source(index)
    }

    /// Ends the merge where the file system failed the caller.
    pub fn failed(self, reason: String) -> (r: MergeStep)
        ensures
            r@ == after_failure(reason@),
    {
        MergeStep::Fail(MergeError::Io(reason))
    }
}

/// Whether the step is one of the caller's with the merge in one of the
/// given stages.
pub open spec fn is_step_in(step: StepView, stages: Set<Stage>) -> bool {
    match step {
        StepView::Expand(run) => run.stage == Stage::Expanding && stages.contains(run.stage),
        StepView::Measure(run) => run.stage == Stage::Measuring && stages.contains(run.stage),
        StepView::Canonicalize(run) => (run.stage == Stage::LocatingOutput || run.stage
            == Stage::LocatingFile || run.stage == Stage::RelocatingOutput || run.stage
            == Stage::RelocatingSource) && stages.contains(run.stage),
        StepView::Read(run) => run.stage == Stage::Reading && stages.contains(run.stage),
        StepView::Write(run) => run.stage == Stage::Writing && stages.contains(run.stage),
        StepView::Remove(run) => run.stage == Stage::Removing && stages.contains(run.stage),
        StepView::Finish(_) => false,
        StepView::Fail(_) => false,
    }
}

/// The merge of a step of the caller's.
pub open spec fn run_of(step: StepView) -> RunView {
    match step {
        StepView::Expand(run) => run,
        StepView::Measure(run) => run,
        StepView::Canonicalize(run) => run,
        StepView::Read(run) => run,
        StepView::Write(run) => run,
        StepView::Remove(run) => run,
        _ => arbitrary(),
    }
}

/// The stages are gates that are passed in one order. Patterns are
/// expanded, then files are measured, then the files are ordered and
/// located, then the sources are read, then the output is written, and only
/// then are sources located again and deleted. Unless the file system fails
/// the caller, a merge fails only before anything is read or written, and
/// it finishes only after the output is written. Every step is about a
/// pattern or a file that exists.
pub proof fn lemma_stages_are_ordered(
    run: RunView,
    matches: Seq<Seq<char>>,
    size: u64,
    canonical: Option<Seq<char>>,
    content: Seq<char>,
)
    requires
        run.wf(),
    ensures
        run.stage == Stage::Expanding ==> after_matches(run, matches) is Fail || is_step_in(
            after_matches(run, matches),
            set![Stage::Expanding, Stage::Measuring],
        ),
        run.stage == Stage::Measuring ==> after_size(run, size) is Fail || is_step_in(
            after_size(run, size),
            set![Stage::Measuring, Stage::LocatingOutput],
        ),
        run.stage == Stage::LocatingOutput || run.stage == Stage::LocatingFile ==> is_step_in(
            after_located(run, canonical),
            set![Stage::LocatingFile, Stage::Reading, Stage::Writing],
        ),
        run.stage == Stage::Reading ==> is_step_in(
            after_read(run, content),
            set![Stage::Reading, Stage::Writing],
        ),
        run.stage == Stage::Writing ==> after_written(run) is Finish || is_step_in(
            after_written(run),
            set![Stage::RelocatingOutput],
        ),
        run.stage == Stage::RelocatingOutput || run.stage == Stage::RelocatingSource
            ==> after_located(run, canonical) is Finish || is_step_in(
            after_located(run, canonical),
            set![Stage::RelocatingSource, Stage::Removing],
        ),
        run.stage == Stage::Removing ==> after_removed(run) is Finish || is_step_in(
            after_removed(run),
            set![Stage::RelocatingSource],
        ),
        run.stage == Stage::Expanding && !(after_matches(run, matches) is Fail) ==> run_of(
            after_matches(run, matches),
        ).wf(),
        run.stage == Stage::Measuring && !(after_size(run, size) is Fail) ==> run_of(
            after_size(run, size),
        ).wf(),
        (run.stage == Stage::LocatingOutput || run.stage == Stage::LocatingFile
            || run.stage == Stage::RelocatingOutput || run.stage == Stage::RelocatingSource)
            && !(after_located(run, canonical) is Finish) ==> run_of(
            after_located(run, canonical),
        ).wf(),
        run.stage == Stage::Reading ==> run_of(after_read(run, content)).wf(),
        run.stage == Stage::Writing && !(after_written(run) is Finish) ==> run_of(
            after_written(run),
        ).wf(),
        run.stage == Stage::Removing && !(after_removed(run) is Finish) ==> run_of(
            after_removed(run),
        ).wf(),
{
}

/// The output is never deleted. A source is deleted only right after the
/// file system was asked about it, and only if its identity, as it was just
/// found, differs from that of the output, as it was found after the
/// output was written. So a source that has the path of the output, and
/// for which the file system answers what it answered for the output, is
/// passed over, in this merge and in every later one.
pub proof fn lemma_output_is_never_removed(run: RunView, canonical: Option<Seq<char>>)
    requires
        run.wf(),
    ensures
        after_located(run, canonical) matches StepView::Remove(next) ==> run.stage
            == Stage::RelocatingSource && next.subject() == run.subject() && !has_identity(
            run.subject(),
            canonical,
            run.output_id,
        ),
        run.stage == Stage::RelocatingSource && has_identity(
            run.subject(),
            canonical,
            run.output_id,
        ) ==> !(after_located(run, canonical) is Remove),
        run.stage == Stage::RelocatingSource && run.subject() == run.output_path
            && run.output_id == identity_of(run.output_path, canonical) ==> !(after_located(
            run,
            canonical,
        ) is Remove),
{
    crate::paths::lemma_same_path(run.output_id, run.output_id, run.output_id);
}

} // verus!
