//! The rules of the backends that are served by external command-line tools:
//! which arguments a tool is called with, and what its output means. Running
//! the tools is left to the caller.

pub mod http;
pub mod s3;
pub mod ssh;

use crate::backend::error::BackendError;
use crate::backend::traits::FileEntry;
use crate::remote::{complaint_or_exit_code, exit_code_string, exit_code_text, trimmed};
use crate::operations::sync::paths;
use crate::scan::string_of;
use crate::text::{str_trim_trailing, trim_trailing};
use vstd::prelude::*;
use vstd::string::*;

verus! {

/// Puts `arg` at the end of `args`.
pub fn push_arg(args: &mut Vec<String>, arg: &str)
    ensures
        paths(final(args)@) == paths(old(args)@).push(arg@),
{
    let ghost before = paths(args@);
    let text = String::from_str(arg);
    assert(paths(args@.push(text)) =~= before.push(arg@));
    args.push(text);
}

/// The failure of a tool that could not be started.
pub fn launch_failure(tool: &str, cause: String) -> (failure: BackendError)
    ensures
        failure matches BackendError::IoError { message, error } && message@
            == "Failed to execute "@ + tool@ && error@ == cause@,
{
    let mut message = String::from_str("Failed to execute ");
    message.append(tool);
    BackendError::IoError { message, error: cause }
}

/// What to make of the exit of a tool: success, or an I/O failure that names
/// the trouble and gives the exit code of the tool (-1 where it has none).
pub fn check_exit(success: bool, code: Option<i32>, trouble: &str) -> (checked: Result<
    (),
    BackendError,
>)
    ensures
        success ==> checked is Ok,
        !success ==> (checked matches Err(BackendError::IoError { message, error }) && message@
            == trouble@ && error@ == exit_code_text(code)),
{
    if success {
        return Ok(());
    }
    Err(BackendError::IoError { message: String::from_str(trouble), error: exit_code_string(code) })
}

/// What to make of the exit of a tool that says what went wrong: success, or
/// an I/O failure that names the trouble and gives what the tool wrote about
/// it, or its exit code where it wrote nothing.
pub fn check_exit_with_complaint(
    success: bool,
    code: Option<i32>,
    complaint: &str,
    trouble: &str,
) -> (checked: Result<(), BackendError>)
    ensures
        success ==> checked is Ok,
        !success ==> (checked matches Err(BackendError::IoError { message, error }) && message@
            == trouble@ && error@ == if trimmed(complaint@).len() == 0 {
            exit_code_text(code)
        } else {
            trimmed(complaint@)
        }),
{
    if success {
        return Ok(());
    }
    Err(
        BackendError::IoError {
            message: String::from_str(trouble),
            error: complaint_or_exit_code(complaint, code),
        },
    )
}

/// The path of the entry `name` in the listed directory `dir`.
pub open spec fn listed_path(dir: Seq<char>, name: Seq<char>) -> Seq<char> {
    trim_trailing(dir, '/') + seq!['/'] + name
}

/// Makes the path of the entry `name` in the listed directory `dir`.
pub fn make_listed_path(dir: &str, name: &Vec<char>) -> (path: String)
    ensures
        path@ == listed_path(dir@, name@),
{
    let mut path = str_trim_trailing(dir, '/');
    proof {
        reveal_strlit("/");
        assert("/"@ =~= seq!['/']);
    }
    path.append("/");
    let text = string_of(name);
    path.append(text.as_str());
    path
}

/// The entries that the lines describe, in order, where `entry` says what a
/// line describes, if it describes anything.
pub open spec fn described(
    entry: spec_fn(Seq<char>) -> Option<FileEntry>,
    lines: Seq<Seq<char>>,
) -> Seq<FileEntry>
    decreases lines.len(),
{
    if lines.len() == 0 {
        Seq::empty()
    } else {
        let earlier = described(entry, lines.drop_last());
        match entry(lines.last()) {
            Some(found) => earlier.push(found),
            None => earlier,
        }
    }
}

} // verus!
