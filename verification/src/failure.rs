//! What can go wrong in a run, and what is said about it.

use vstd::prelude::*;

#[allow(unused_imports)]
use crate::paths::opt_text;

verus! {

/// What could not be done.
#[derive(Clone, Copy, Debug, PartialEq, Eq, Structural)]
pub enum Failure {
    /// The path of the source could not be resolved.
    Input,
    /// The source could not be opened.
    Source,
    /// The cache directory could not be created.
    CacheDir,
    /// The object files could not be linked.
    Linking,
    /// An object file could not be deleted.
    Removal,
    /// Output could not be written.
    Printing,
    /// The user could not be told that all is done.
    Announcement,
}

/// What is said about a path that could not be resolved.
pub open spec fn resolve_text(input: Seq<char>) -> Seq<char> {
    "failed to resolve "@ + input
}

/// What is said about something that could not be done, beside its cause, where
/// anything is.
pub open spec fn failure_text(failure: Failure, input: Seq<char>) -> Option<Seq<char>> {
    match failure {
        Failure::Input => Some(resolve_text(input)),
        Failure::CacheDir => Some("failed to create cache directory"@),
        Failure::Removal => Some("failed to delete intermediate compile artifact"@),
        _ => None,
    }
}

/// Returns what is said about a path that could not be resolved.
pub fn resolve_context(input: &str) -> (res: String)
    ensures
        res@ == "failed to resolve "@ + input@,
{
    let mut res = "failed to resolve ".to_owned();
    res.append(input);
    res
}

/// Returns what is said about something that could not be done in a run on the
/// source with the given path, where anything is.
pub fn failure_context(failure: Failure, input: &str) -> (res: Option<String>)
    ensures
        opt_text(res) == failure_text(failure, input@),
{
    match failure {
        Failure::Input => Some(resolve_context(input)),
        Failure::CacheDir => Some("failed to create cache directory".to_owned()),
        Failure::Removal => Some("failed to delete intermediate compile artifact".to_owned()),
        _ => None,
    }
}

/// A path that could not be resolved is named. A cache directory that could not be
/// created and an object file that could not be deleted are spoken of as such, and
/// everything else is left to its cause.
pub proof fn law_what_is_said(failure: Failure, input: Seq<char>)
    ensures
        failure is Input ==> failure_text(failure, input) == Some("failed to resolve "@ + input),
        failure is CacheDir ==> failure_text(failure, input) == Some(
            "failed to create cache directory"@,
        ),
        failure is Removal ==> failure_text(failure, input) == Some(
            "failed to delete intermediate compile artifact"@,
        ),
        failure is Source || failure is Linking || failure is Printing || failure is Announcement
            ==> failure_text(failure, input) is None,
{
}

} // verus!
