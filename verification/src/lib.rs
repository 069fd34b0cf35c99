//! Tools for timestamped transcript segments: re-anchoring the relative
//! timestamps of one segment to wall-clock time, and planning the merge of
//! several segments into one chronologically ordered document.

pub mod calendar;
pub mod cli;
pub mod merge;
pub mod ordering;
pub mod paths;
pub mod sort_key;
pub mod steps;
pub mod text;
pub mod transcript;
pub mod update;

use vstd::prelude::*;

verus! {

/// Why a command failed.
#[derive(Debug)]
pub enum AppError {
    /// The `update` command failed.
    Update(update::UpdateError),
    /// The `merge` command failed.
    Merge(merge::MergeError),
}

impl From<update::UpdateError> for AppError {
    fn from(error: update::UpdateError) -> (r: AppError) {
        AppError::Update(error)
    }
}

impl vstd::std_specs::convert::FromSpecImpl<update::UpdateError> for AppError {
    open spec fn obeys_from_spec() -> bool {
        true
    }

    open spec fn from_spec(error: update::UpdateError) -> AppError {
        AppError::Update(error)
    }
}

impl From<merge::MergeError> for AppError {
    fn from(error: merge::MergeError) -> (r: AppError) {
        AppError::Merge(error)
    }
}

impl vstd::std_specs::convert::FromSpecImpl<merge::MergeError> for AppError {
    open spec fn obeys_from_spec() -> bool {
        true
    }

    open spec fn from_spec(error: merge::MergeError) -> AppError {
        AppError::Merge(error)
    }
}

} // verus!
