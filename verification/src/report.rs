//! What a run says when it ends without a listing, and the status it ends
//! with.

use crate::options::{Invocation, InvocationView, Options};
use vstd::prelude::*;
use vstd::string::*;

verus! {

/// The status of a run that listed the directory, or showed the usage text
/// or the version.
pub const EXIT_OK: i32 = 0;

/// The status of a run that rejected a token or could not list the directory.
pub const EXIT_FAILURE: i32 = 1;

/// The usage text, without the line break that ends it.
pub const USAGE: &'static str =
    "rust-ls - A simple ls-like utility written in Rust.\nUsage: rls [Option]\n\nOptions:\n   -a          Include hidden files\n   -l          Use long listing format\n   -help       Display this help message\n   -version    Show version information";

/// The version line, without the line break that ends it.
pub const VERSION: &'static str = "rust-ls 0.1.0";

/// How a run ends: its last message, the stream the message goes to, and the
/// status.
#[derive(Debug, PartialEq, Eq)]
pub struct Exit {
    /// The status of the process.
    pub code: i32,
    /// The message goes to standard error rather than to standard output.
    pub to_stderr: bool,
    /// The message, without the line break that ends it.
    pub message: String,
}

/// The usage text.
pub open spec fn usage() -> Seq<char> {
    USAGE@
}

/// The version line.
pub open spec fn version() -> Seq<char> {
    VERSION@
}

/// The message that rejects `token`.
pub open spec fn unknown_option(token: Seq<char>) -> Seq<char> {
    "Unknown option: "@ + token
}

/// The message of a listing that failed for `cause`.
pub open spec fn listing_error(cause: Seq<char>) -> Seq<char> {
    "Error listing directory: "@ + cause
}

/// The usage text.
pub fn help_text() -> (text: &'static str)
    ensures
        text@ == usage(),
{
    USAGE
}

/// The version line.
pub fn version_text() -> (text: &'static str)
    ensures
        text@ == version(),
{
    VERSION
}

/// The message that rejects `token`.
pub fn unknown_option_message(token: &str) -> (message: String)
    ensures
        message@ == unknown_option(token@),
{
    String::from_str("Unknown option: ").concat(token)
}

/// The message of a listing that failed for `cause`.
pub fn listing_error_message(cause: &str) -> (message: String)
    ensures
        message@ == listing_error(cause@),
{
    String::from_str("Error listing directory: ").concat(cause)
}

/// Decides what a run does: it goes on to list under the options that were
/// asked for, or it ends at once, with the usage text or the version on
/// standard output and success, or with the rejection of a token on standard
/// error and failure.
pub fn dispatch(invocation: &Invocation) -> (next: Result<Options, Exit>)
    ensures
        match invocation@ {
            InvocationView::List(options) => next == Ok::<Options, Exit>(options),
            InvocationView::Help => next is Err && next->Err_0.code == EXIT_OK
                && !next->Err_0.to_stderr && next->Err_0.message@ == usage(),
            InvocationView::Version => next is Err && next->Err_0.code == EXIT_OK
                && !next->Err_0.to_stderr && next->Err_0.message@ == version(),
            InvocationView::Unknown(token) => next is Err && next->Err_0.code == EXIT_FAILURE
                && next->Err_0.to_stderr && next->Err_0.message@ == unknown_option(token),
        },
{
    match invocation {
        Invocation::List(options) => Ok(*options),
        Invocation::Help => Err(
            Exit { code: EXIT_OK, to_stderr: false, message: String::from_str(help_text()) },
        ),
        Invocation::Version => Err(
            Exit { code: EXIT_OK, to_stderr: false, message: String::from_str(version_text()) },
        ),
        Invocation::Unknown(token) => Err(
            Exit {
                code: EXIT_FAILURE,
                to_stderr: true,
                message: unknown_option_message(token.as_str()),
            },
        ),
    }
}

/// How a run ends whose listing failed for `cause`: with the cause on
/// standard error and failure.
pub fn listing_failure(cause: &str) -> (exit: Exit)
    ensures
        exit.code == EXIT_FAILURE,
        exit.to_stderr,
        exit.message@ == listing_error(cause@),
{
    Exit { code: EXIT_FAILURE, to_stderr: true, message: listing_error_message(cause) }
}

} // verus!
