//! Planning the merge of transcript segments into one document.
//!
//! The files of a merge are ordered by the keys in their names, the path of
//! the output is resolved from their dates and directories, the output
//! itself is taken out of the sources, and the texts of the sources are
//! joined. The functions here decide these things from paths and texts; the
//! steps of a whole merge, in their order, are in [`crate::steps`].

use crate::calendar::{dashed_date_text, CivilDate, Date};
use crate::cli::MergeArgs;
use crate::ordering::{
    distinct_paths, keys_of, paths_of, segment_views, sort_by_key, sorted_by_key, texts,
    without_repeats, Descriptor, SegmentView,
};
use crate::paths::{is_same_path, joined, parent_len, parent_of, push_joined, same_path};
use crate::sort_key::{
    day_directory, extract_nested_day_directory, sort_key_of, FileSortKey, SortKeyView,
};
use crate::text::{chars_of, push_range, push_str, string_of};
use crate::transcript::ends_with_newline;
use vstd::prelude::*;

verus! {

/// The largest size, in bytes, of a file that is read: ten mebibytes.
pub const MAX_FILE_SIZE: u64 = 10485760;

/// What is to be merged, and where to.
#[derive(Debug, Clone)]
pub struct MergeRequest {
    /// The patterns that name the segments.
    pub patterns: Vec<String>,
    /// The path of the merged document, if the caller chose one.
    pub output: Option<String>,
    /// Whether the segments are kept after the merge.
    pub no_delete: bool,
}

impl From<MergeArgs> for MergeRequest {
    fn from(args: MergeArgs) -> (r: MergeRequest) {
        MergeRequest { patterns: args.patterns, output: args.output, no_delete: args.no_delete }
    }
}

impl vstd::std_specs::convert::FromSpecImpl<MergeArgs> for MergeRequest {
    open spec fn obeys_from_spec() -> bool {
        true
    }

    open spec fn from_spec(args: MergeArgs) -> MergeRequest {
        MergeRequest { patterns: args.patterns, output: args.output, no_delete: args.no_delete }
    }
}

/// What a merge did.
#[derive(Debug)]
pub struct MergeOutcome {
    /// The segments that were merged, in their order.
    pub files: Vec<String>,
    /// The path of the merged document.
    pub output_path: String,
}

/// Why a merge could not be carried out.
#[derive(Debug, Clone, PartialEq, Eq)]
pub enum MergeError {
    /// The pattern is not a well-formed glob pattern.
    InvalidGlobPattern { pattern: String, reason: String },
    /// The pattern matched no file.
    NoMatches(String),
    /// A match of a pattern could not be read.
    GlobIteration(String),
    /// The name of the file has neither of the known shapes.
    UnrecognizedFilename(String),
    /// The files belong to different dates and no output was named.
    MixedDates,
    /// No file has a date and no output was named.
    UndeterminedDate,
    /// Reading or writing a file failed.
    Io(String),
    /// The file is larger than [`MAX_FILE_SIZE`].
    FileTooLarge { path: String, size: u64, max: u64 },
}

/// The mathematical model of a [`MergeError`].
pub enum MergeFailure {
    InvalidGlobPattern { pattern: Seq<char>, reason: Seq<char> },
    NoMatches(Seq<char>),
    GlobIteration(Seq<char>),
    UnrecognizedFilename(Seq<char>),
    MixedDates,
    UndeterminedDate,
    Io(Seq<char>),
    FileTooLarge { path: Seq<char>, size: u64, max: u64 },
}

impl View for MergeError {
    type V = MergeFailure;

    open spec fn view(&self) -> MergeFailure {
        match self {
            MergeError::InvalidGlobPattern { pattern, reason } => MergeFailure::InvalidGlobPattern {
                pattern: pattern@,
                reason: reason@,
            },
            MergeError::NoMatches(pattern) => MergeFailure::NoMatches(pattern@),
            MergeError::GlobIteration(reason) => MergeFailure::GlobIteration(reason@),
            MergeError::UnrecognizedFilename(path) => MergeFailure::UnrecognizedFilename(path@),
            MergeError::MixedDates => MergeFailure::MixedDates,
            MergeError::UndeterminedDate => MergeFailure::UndeterminedDate,
            MergeError::Io(reason) => MergeFailure::Io(reason@),
            MergeError::FileTooLarge { path, size, max } => MergeFailure::FileTooLarge {
                path: path@,
                size: *size,
                max: *max,
            },
        }
    }
}

/// The text of a path that may be missing.
pub open spec fn optional_text(path: Option<String>) -> Option<Seq<char>> {
    match path {
        Some(p) => Some(p@),
        None => None,
    }
}

/// The ordered segments of a merge and the path of its output.
#[derive(Debug)]
pub struct MergePlan {
    /// The paths of the segments, in the order of their keys, each once.
    pub files: Vec<String>,
    /// The path of the merged document.
    pub output_path: String,
}

/// The position of the first path whose name gives no key, or the number
/// of paths if every name gives one.
pub open spec fn first_unrecognized(paths: Seq<Seq<char>>) -> int
    decreases paths.len(),
{
    if paths.len() == 0 {
        0
    } else {
        let at = first_unrecognized(paths.drop_last());
        if at < paths.len() - 1 {
            at
        } else if sort_key_of(paths.last()) is Some {
            paths.len() as int
        } else {
            paths.len() - 1
        }
    }
}

/// The segments at `paths`, each with the key that its name gives.
pub open spec fn segments_of(paths: Seq<Seq<char>>) -> Seq<SegmentView> {
    Seq::new(
        paths.len(),
        |i: int| SegmentView { path: paths[i], key: sort_key_of(paths[i]).unwrap() },
    )
}

/// Reads the key off the name of every file. The first name that gives
/// none is an error.
pub fn describe(collected: &Vec<String>) -> (r: Result<Vec<Descriptor>, MergeError>)
    ensures
        first_unrecognized(texts(collected@)) <= collected@.len(),
        match r {
            Ok(items) => first_unrecognized(texts(collected@)) == collected@.len()
                && segment_views(items@) == segments_of(texts(collected@)),
            Err(e) => first_unrecognized(texts(collected@)) < collected@.len() && e@
                == MergeFailure::UnrecognizedFilename(
                texts(collected@)[first_unrecognized(texts(collected@))],
            ),
        },
{
    let ghost paths = texts(collected@);
    let mut items: Vec<Descriptor> = Vec::new();
    let mut i: usize = 0;
    assert(paths.take(0) =~= Seq::<Seq<char>>::empty());
    assert(segment_views(items@) =~= segments_of(paths.take(0)));
    while i < collected.len()
        invariant
            i <= collected.len(),
            paths == texts(collected@),
            first_unrecognized(paths.take(i as int)) == i,
            segment_views(items@) == segments_of(paths.take(i as int)),
        decreases collected.len() - i,
    {
        proof {
            assert(paths.take(i + 1).drop_last() =~= paths.take(i as int));
            assert(paths.take(i + 1).last() == paths[i as int]);
        }
        let ghost before = segment_views(items@);
        match FileSortKey::from_path(collected[i].as_str()) {
            Ok(key) => {
                let item = Descriptor { path: collected[i].clone(), key };
                assert(item@ == segments_of(paths.take(i + 1))[i as int]);
                items.push(item);
                assert(segment_views(items@) =~= before.push(
                    segments_of(paths.take(i + 1))[i as int],
                ));
                assert(segment_views(items@) =~= segments_of(paths.take(i + 1)));
            },
            Err(e) => {
                proof {
                    lemma_first_unrecognized_stays(paths, i + 1);
                }
                return Err(e);
            },
        }
        i += 1;
    }
    assert(paths.take(collected@.len() as int) =~= paths);
    Ok(items)
}

proof fn lemma_first_unrecognized_stays(paths: Seq<Seq<char>>, n: int)
    requires
        0 < n <= paths.len(),
        first_unrecognized(paths.take(n)) < n,
    ensures
        first_unrecognized(paths) == first_unrecognized(paths.take(n)),
    decreases paths.len() - n,
{
    if n < paths.len() {
        assert(paths.take(n + 1).drop_last() =~= paths.take(n));
        lemma_first_unrecognized_stays(paths, n + 1);
    } else {
        assert(paths.take(n) =~= paths);
    }
}

/// Whether the file at `path` lies in the day directory `dir` of the date
/// `date`: whether its day directory is the same path and has that date.
pub open spec fn lies_in(path: Seq<char>, dir: Seq<char>, date: CivilDate) -> bool {
    day_directory(path) matches Some(found) && is_same_path(found.0, dir) && found.1 == date
}

/// The day directory that all of the files lie in, with its date, if there
/// is at least one file and they all lie in the same one. It is written as
/// the first file gives it.
pub open spec fn common_day_directory(paths: Seq<Seq<char>>) -> Option<(Seq<char>, CivilDate)> {
    if paths.len() > 0 && day_directory(paths[0]) is Some && (forall|i: int|
        0 <= i < paths.len() ==> lies_in(
            #[trigger] paths[i],
            day_directory(paths[0]).unwrap().0,
            day_directory(paths[0]).unwrap().1,
        )) {
        day_directory(paths[0])
    } else {
        None
    }
}

/// Whether two of the keys hold different dates.
pub open spec fn has_mixed_dates(keys: Seq<SortKeyView>) -> bool {
    exists|i: int, j: int|
        0 <= i < keys.len() && 0 <= j < keys.len() && (#[trigger] keys[i]).date is Some && (
        #[trigger] keys[j]).date is Some && keys[i].date != keys[j].date
}

/// Whether `date` is the date of one of the keys.
pub open spec fn is_date_of(keys: Seq<SortKeyView>, date: CivilDate) -> bool {
    exists|i: int| 0 <= i < keys.len() && (#[trigger] keys[i]).date == Some(date)
}

/// Whether one of the keys holds a date.
pub open spec fn has_date(keys: Seq<SortKeyView>) -> bool {
    exists|date: CivilDate| is_date_of(keys, date)
}

/// The date that the keys hold, if they hold one.
pub open spec fn date_of_keys(keys: Seq<SortKeyView>) -> CivilDate {
    choose|date: CivilDate| is_date_of(keys, date)
}

/// The directory in which the output lies where the files share no day
/// directory: the directory of the first file, or `.` if there is none.
pub open spec fn base_directory(paths: Seq<Seq<char>>) -> Seq<char> {
    if paths.len() > 0 && parent_of(paths[0]) is Some {
        parent_of(paths[0]).unwrap()
    } else {
        seq!['.']
    }
}

/// The name of the merged document of a date: `YYYY-MM-DD.txt`.
pub open spec fn date_file_name(date: CivilDate) -> Seq<char> {
    dashed_date_text(date) + seq!['.', 't', 'x', 't']
}

/// The path of the merged document. The first rule that applies decides:
/// a path that the caller chose is taken as it is; files that share a day
/// directory give the file of its date in it; files whose dates agree give
/// the file of that date beside the first of them.
pub open spec fn resolved_output(
    custom: Option<Seq<char>>,
    ordered: Seq<Seq<char>>,
    keys: Seq<SortKeyView>,
) -> Result<Seq<char>, MergeFailure> {
    match custom {
        Some(path) => Ok(path),
        None => match common_day_directory(ordered) {
            Some(found) => Ok(joined(found.0, date_file_name(found.1))),
            None => if has_mixed_dates(keys) {
                Err(MergeFailure::MixedDates)
            } else if has_date(keys) {
                Ok(joined(base_directory(ordered), date_file_name(date_of_keys(keys))))
            } else {
                Err(MergeFailure::UndeterminedDate)
            },
        },
    }
}

/// Whether `r` is the outcome that `expected` describes.
pub open spec fn is_output(r: Result<String, MergeError>, expected: Result<
    Seq<char>,
    MergeFailure,
>) -> bool {
    match expected {
        Ok(path) => r matches Ok(p) && p@ == path,
        Err(failure) => r matches Err(e) && e@ == failure,
    }
}

/// The path of the file of `date` in the directory `dir`.
fn date_file_in(dir: Vec<char>, date: &Date) -> (r: String)
    ensures
        r@ == joined(dir@, date_file_name(date@)),
{
    let mut name: Vec<char> = Vec::new();
    date.push_dashed(&mut name);
    name.push('.');
    name.push('t');
    name.push('x');
    name.push('t');
    assert(name@ =~= date_file_name(date@));
    let mut out = dir;
    push_joined(&mut out, &name);
    string_of(&out)
}

/// The day directory that all of the files lie in, with its date.
pub fn detect_common_nested_directory(paths: &Vec<String>) -> (r: Option<(String, Date)>)
    ensures
        r is Some <==> common_day_directory(texts(paths@)) is Some,
        r matches Some(found) ==> common_day_directory(texts(paths@)) == Some(
            (found.0@, found.1@),
        ),
{
    let ghost all = texts(paths@);
    if paths.len() == 0 {
        return None;
    }
    let first = match extract_nested_day_directory(paths[0].as_str()) {
        Some(found) => found,
        None => {
            return None;
        },
    };
    proof {
        crate::paths::lemma_same_path(first.0@, first.0@, first.0@);
    }
    let mut i: usize = 1;
    while i < paths.len()
        invariant
            1 <= i <= paths.len(),
            all == texts(paths@),
            day_directory(all[0]) == Some((first.0@, first.1@)),
            forall|j: int| 0 <= j < i ==> lies_in(#[trigger] all[j], first.0@, first.1@),
        decreases paths.len() - i,
    {
        match extract_nested_day_directory(paths[i].as_str()) {
            Some(found) => {
                if !(same_path(found.0.as_str(), first.0.as_str()) && found.1.same_day(
                    &first.1,
                )) {
                    assert(!lies_in(all[i as int], first.0@, first.1@));
                    return None;
                }
            },
            None => {
                assert(!lies_in(all[i as int], first.0@, first.1@));
                return None;
            },
        }
        i += 1;
    }
    Some(first)
}

/// The directory of the first file, or `.` if there is none.
fn base_directory_of(paths: &Vec<String>) -> (r: Vec<char>)
    ensures
        r@ == base_directory(texts(paths@)),
{
    if paths.len() > 0 {
        let chars = chars_of(paths[0].as_str());
        assert(chars@.take(chars@.len() as int) =~= chars@);
        match parent_len(&chars, chars.len()) {
            Some(n) => {
                let mut dir: Vec<char> = Vec::new();
                push_range(&mut dir, &chars, 0, n);
                assert(chars@.subrange(0, n as int) =~= chars@.take(n as int));
                return dir;
            },
            None => {},
        }
    }
    let mut dir: Vec<char> = Vec::new();
    dir.push('.');
    assert(dir@ =~= seq!['.']);
    dir
}

/// The date on which the keys agree: an error if two of them differ,
/// nothing if none holds a date.
fn agreed_date(items: &Vec<Descriptor>) -> (r: Result<Option<Date>, MergeError>)
    ensures
        match r {
            Ok(Some(date)) => !has_mixed_dates(keys_of(segment_views(items@))) && is_date_of(
                keys_of(segment_views(items@)),
                date@,
            ),
            Ok(None) => !has_mixed_dates(keys_of(segment_views(items@))) && !has_date(
                keys_of(segment_views(items@)),
            ),
            Err(e) => has_mixed_dates(keys_of(segment_views(items@))) && e@
                == MergeFailure::MixedDates,
        },
{
    let ghost keys = keys_of(segment_views(items@));
    let mut selected: Option<Date> = None;
    let mut i: usize = 0;
    while i < items.len()
        invariant
            i <= items.len(),
            keys == keys_of(segment_views(items@)),
            forall|j: int|
                0 <= j < i && (#[trigger] keys[j]).date is Some ==> selected is Some
                    && keys[j].date == Some(selected.unwrap()@),
            selected matches Some(date) ==> exists|j: int|
                0 <= j < i && (#[trigger] keys[j]).date == Some(date@),
        decreases items.len() - i,
    {
        if let Some(date) = items[i].key.date {
            assert(keys[i as int].date == Some(date@));
            if let Some(existing) = selected {
                if !existing.same_day(&date) {
                    return Err(MergeError::MixedDates);
                }
            } else {
                selected = Some(date);
            }
        }
        i += 1;
    }
    proof {
        if selected is None {
            assert forall|date: CivilDate| !is_date_of(keys, date) by {
                if is_date_of(keys, date) {
                    let j = choose|j: int| 0 <= j < keys.len() && (#[trigger] keys[j]).date == Some(
                        date,
                    );
                    assert(keys[j].date is Some);
                }
            }
        }
    }
    Ok(selected)
}

/// Resolves the path of the merged document for the files `ordered`, whose
/// keys the segments `items` hold.
pub fn determine_output_path(
    ordered: &Vec<String>,
    items: &Vec<Descriptor>,
    request: &MergeRequest,
) -> (r: Result<String, MergeError>)
    ensures
        is_output(
            r,
            resolved_output(
                optional_text(request.output),
                texts(ordered@),
                keys_of(segment_views(items@)),
            ),
        ),
{
    let ghost keys = keys_of(segment_views(items@));
    if let Some(custom) = &request.output {
        return Ok(custom.clone());
    }
    if let Some(found) = detect_common_nested_directory(ordered) {
        let dir = chars_of(found.0.as_str());
        return Ok(date_file_in(dir, &found.1));
    }
    match agreed_date(items) {
        Err(e) => Err(e),
        Ok(None) => Err(MergeError::UndeterminedDate),
        Ok(Some(date)) => {
            proof {
                let chosen = date_of_keys(keys);
                assert(is_date_of(keys, chosen));
                let i = choose|i: int| 0 <= i < keys.len() && (#[trigger] keys[i]).date == Some(
                    date@,
                );
                let j = choose|j: int| 0 <= j < keys.len() && (#[trigger] keys[j]).date == Some(
                    chosen,
                );
                assert(keys[i].date == keys[j].date);
            }
            Ok(date_file_in(base_directory_of(ordered), &date))
        },
    }
}

/// The segments of a merge in their order.
pub open spec fn ordered_segments(paths: Seq<Seq<char>>) -> Seq<SegmentView> {
    sorted_by_key(segments_of(paths))
}

/// The files of a merge in their order, each once.
pub open spec fn ordered_files(paths: Seq<Seq<char>>) -> Seq<Seq<char>> {
    without_repeats(paths_of(ordered_segments(paths)))
}

/// The files of a merge in their order and the path of its output, for
/// the files `collected` and the output `custom` that the caller chose, if
/// any: a failure for the first file whose name gives no key, and where no
/// output path can be inferred.
pub open spec fn planned(custom: Option<Seq<char>>, collected: Seq<Seq<char>>) -> Result<
    (Seq<Seq<char>>, Seq<char>),
    MergeFailure,
> {
    if first_unrecognized(collected) < collected.len() {
        Err(MergeFailure::UnrecognizedFilename(collected[first_unrecognized(collected)]))
    } else {
        match resolved_output(
            custom,
            ordered_files(collected),
            keys_of(ordered_segments(collected)),
        ) {
            Ok(path) => Ok((ordered_files(collected), path)),
            Err(failure) => Err(failure),
        }
    }
}

/// Orders the files that were collected and resolves the output path.
///
/// Fails on the first file whose name gives no key, and where no output
/// path can be inferred.
pub fn plan(request: &MergeRequest, collected: &Vec<String>) -> (r: Result<MergePlan, MergeError>)
    ensures
        match planned(optional_text(request.output), texts(collected@)) {
            Ok(expected) => r matches Ok(p) && texts(p.files@) == expected.0 && p.output_path@
                == expected.1,
            Err(failure) => r matches Err(e) && e@ == failure,
        },
{
    let items = match describe(collected) {
        Ok(items) => items,
        Err(e) => {
            return Err(e);
        },
    };
    let sorted = sort_by_key(&items);
    let files = distinct_paths(&sorted);
    match determine_output_path(&files, &sorted, request) {
        Ok(output_path) => Ok(MergePlan { files, output_path }),
        Err(e) => Err(e),
    }
}

/// What stands for a file when two paths are compared: the canonical path
/// that the file system gave, or the path itself where it gave none.
pub open spec fn identity_of(path: Seq<char>, canonical: Option<Seq<char>>) -> Seq<char> {
    match canonical {
        Some(c) => c,
        None => path,
    }
}

/// The canonical paths, as texts.
pub open spec fn canonical_texts(canonical: Seq<Option<String>>) -> Seq<Option<Seq<char>>> {
    Seq::new(canonical.len(), |i: int| optional_text(canonical[i]))
}

/// Whether the file at `path`, for which the file system gave the
/// canonical path `canonical`, if any, is the file with the identity
/// `output`: whether its identity is the same path.
pub open spec fn has_identity(
    path: Seq<char>,
    canonical: Option<Seq<char>>,
    output: Seq<char>,
) -> bool {
    is_same_path(identity_of(path, canonical), output)
}

/// The files that are not the output: those whose identity differs from
/// `output`, in their order.
pub open spec fn other_than(
    files: Seq<Seq<char>>,
    canonical: Seq<Option<Seq<char>>>,
    output: Seq<char>,
) -> Seq<Seq<char>>
    decreases files.len(),
{
    if files.len() == 0 {
        files
    } else {
        let front = other_than(files.drop_last(), canonical.take(files.len() - 1), output);
        if has_identity(files.last(), canonical[files.len() - 1], output) {
            front
        } else {
            front.push(files.last())
        }
    }
}

/// Whether the file at `path`, with the canonical path that the file
/// system gave for it, if any, is the output.
pub fn same_identity(path: &String, canonical: &Option<String>, output: &String) -> (r: bool)
    ensures
        r == has_identity(path@, optional_text(*canonical), output@),
{
    match canonical {
        Some(c) => same_path(c.as_str(), output.as_str()),
        None => same_path(path.as_str(), output.as_str()),
    }
}

/// The identity of the output: its canonical path, or its path where the
/// file system gave none, as it does for a file that does not exist yet.
pub fn output_identity(output_path: &str, canonical: Option<String>) -> (r: String)
    ensures
        r@ == identity_of(output_path@, optional_text(canonical)),
{
    match canonical {
        Some(c) => c,
        None => output_path.to_owned(),
    }
}

/// Takes the output out of the files: keeps, in their order, the files
/// whose identity differs from that of the output. `canonical` holds for
/// each file the canonical path that the file system gave for it, if any.
pub fn exclude_output(files: &Vec<String>, canonical: &Vec<Option<String>>, output: &String) -> (r:
    Vec<String>)
    requires
        files@.len() == canonical@.len(),
    ensures
        texts(r@) == other_than(texts(files@), canonical_texts(canonical@), output@),
{
    let ghost all = texts(files@);
    let ghost canon = canonical_texts(canonical@);
    let mut kept: Vec<String> = Vec::new();
    let mut i: usize = 0;
    assert(all.take(0) =~= Seq::<Seq<char>>::empty());
    assert(texts(kept@) =~= Seq::<Seq<char>>::empty());
    while i < files.len()
        invariant
            i <= files.len(),
            files@.len() == canonical@.len(),
            all == texts(files@),
            canon == canonical_texts(canonical@),
            texts(kept@) == other_than(all.take(i as int), canon.take(i as int), output@),
        decreases files.len() - i,
    {
        let ghost before = texts(kept@);
        proof {
            assert(all.take(i + 1).drop_last() =~= all.take(i as int));
            assert(canon.take(i + 1).take(i as int) =~= canon.take(i as int));
            assert(all.take(i + 1).last() == files@[i as int]@);
            assert(canon.take(i + 1)[i as int] == canon[i as int]);
        }
        if !same_identity(&files[i], &canonical[i], output) {
            kept.push(files[i].clone());
            assert(texts(kept@) =~= before.push(files@[i as int]@));
        }
        i += 1;
    }
    assert(all.take(files@.len() as int) =~= all);
    assert(canon.take(files@.len() as int) =~= canon);
    kept
}

/// The text after the first `count` segments and the line feeds between
/// them: each segment is appended, and a line feed is put behind it if
/// another segment follows and the text does not end in one.
pub open spec fn merged_prefix(segments: Seq<Seq<char>>, count: int) -> Seq<char>
    decreases count,
{
    if count <= 0 {
        Seq::empty()
    } else {
        let text = merged_prefix(segments, count - 1) + segments[count - 1];
        if count < segments.len() && !ends_with_newline(text) {
            text.push('\n')
        } else {
            text
        }
    }
}

/// The merged text of the segments.
pub open spec fn merged_text(segments: Seq<Seq<char>>) -> Seq<char> {
    merged_prefix(segments, segments.len() as int)
}

/// Joins the texts of the segments, in their order, into one text. A line
/// feed is put between two segments where the text before does not end in
/// one.
pub fn concatenate(segments: &Vec<String>) -> (r: String)
    ensures
        r@ == merged_text(texts(segments@)),
{
    let ghost all = texts(segments@);
    let mut merged: Vec<char> = Vec::new();
    let mut i: usize = 0;
    while i < segments.len()
        invariant
            i <= segments.len(),
            all == texts(segments@),
            merged@ == merged_prefix(all, i as int),
        decreases segments.len() - i,
    {
        push_str(&mut merged, segments[i].as_str());
        let len = merged.len();
        if i + 1 != segments.len() && !(len > 0 && merged[len - 1] == '\n') {
            merged.push('\n');
        }
        i += 1;
    }
    string_of(&merged)
}

/// Every file that is kept when the output is taken out is one of the
/// files, and its identity differs from that of the output.
pub proof fn lemma_kept_files_differ_from_output(
    files: Seq<Seq<char>>,
    canonical: Seq<Option<Seq<char>>>,
    output: Seq<char>,
)
    requires
        files.len() == canonical.len(),
    ensures
        forall|k: int|
            0 <= k < other_than(files, canonical, output).len() ==> exists|j: int|
                0 <= j < files.len() && files[j] == #[trigger] other_than(
                    files,
                    canonical,
                    output,
                )[k] && !has_identity(files[j], canonical[j], output),
    decreases files.len(),
{
    let kept = other_than(files, canonical, output);
    if files.len() > 0 {
        let front = files.drop_last();
        let front_canonical = canonical.take(files.len() - 1);
        let before = other_than(front, front_canonical, output);
        lemma_kept_files_differ_from_output(front, front_canonical, output);
        assert forall|k: int| 0 <= k < kept.len() implies exists|j: int|
            0 <= j < files.len() && files[j] == #[trigger] kept[k] && !has_identity(
                files[j],
                canonical[j],
                output,
            ) by {
            if k < before.len() {
                assert(kept[k] == before[k]);
                let j = choose|j: int|
                    0 <= j < front.len() && front[j] == before[k] && !has_identity(
                        front[j],
                        front_canonical[j],
                        output,
                    );
                assert(files[j] == kept[k] && !has_identity(files[j], canonical[j], output));
            } else {
                let j = files.len() - 1;
                assert(files[j] == kept[k] && !has_identity(files[j], canonical[j], output));
            }
        }
    }
}

} // verus!
