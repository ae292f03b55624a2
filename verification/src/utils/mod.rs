//! Small helpers that the handlers share.

mod data;

pub use data::Data;

use crate::idempotency::response::{
    header_value_is_valid, see_other_view, text_view, ResponseView,
};
use crate::idempotency::SavedResponse;
use vstd::prelude::*;
use vstd::string::StringExecFns;

verus! {

/// What a client is told where the target of a redirect is no header value.
pub open spec fn bad_redirect_message() -> Seq<char> {
    "failed to parse header value"@
}

/// The mathematical form of the redirect to `location`, or of the failure
/// to make one.
pub open spec fn redirect_view(location: Seq<char>) -> ResponseView {
    if header_value_is_valid(vstd::utf8::encode_utf8(location)) {
        see_other_view(location)
    } else {
        text_view(500, bad_redirect_message())
    }
}

/// The response to a request that failed for a reason of the server's:
/// status 500 and the reason as plain text.
pub fn e500(message: &str) -> (response: SavedResponse)
    ensures
        response@ == text_view(500, message@),
{
    SavedResponse::text(500, message).unwrap()
}

/// The response to a request that is at fault: status 400 and the reason
/// as plain text.
pub fn e400(message: &str) -> (response: SavedResponse)
    ensures
        response@ == text_view(400, message@),
{
    SavedResponse::text(400, message).unwrap()
}

/// The response that sends a client on to `location`: status 303 and a
/// `location` header. A target that is no header value gives a response
/// with status 500 in its place.
pub fn see_other(location: &str) -> (response: SavedResponse)
    ensures
        response@ == redirect_view(location@),
{
    match SavedResponse::see_other(location) {
        Some(response) => response,
        None => e500("failed to parse header value"),
    }
}

/// How a long-running task came to its end.
#[derive(Debug, Clone, Copy, PartialEq, Eq, Structural)]
pub enum TaskExit {
    /// The task returned without an error.
    Exited,
    /// The task returned an error.
    Failed,
    /// The task did not run to its end.
    Aborted,
}

/// What is reported of a task that has come to its end.
pub open spec fn exit_report(task_name: Seq<char>, exit: TaskExit) -> Seq<char> {
    match exit {
        TaskExit::Exited => task_name + " has exited"@,
        TaskExit::Failed => task_name + " failed"@,
        TaskExit::Aborted => task_name + "'s task failed to complete"@,
    }
}

/// The line that reports the end of a task: see [`exit_report`]. Only the
/// first kind of end is no error.
pub fn report_exit(task_name: &str, exit: TaskExit) -> (report: (bool, String))
    ensures
        report.0 == (exit != TaskExit::Exited),
        report.1@ == exit_report(task_name@, exit),
{
    let mut line = task_name.to_owned();
    match exit {
        TaskExit::Exited => {
            line.append(" has exited");
            (false, line)
        },
        TaskExit::Failed => {
            line.append(" failed");
            (true, line)
        },
        TaskExit::Aborted => {
            line.append("'s task failed to complete");
            (true, line)
        },
    }
}

} // verus!
