//! The request dispatcher's decisions: which requests are answered at once,
//! how an operation's outcome becomes a response, and how a session goes on
//! after each read.
use crate::error::{headline, AgentError};
use crate::listing::FileInfo;
use crate::protocol::{Action, Response, ResponseData, ResponseResult};
use vstd::prelude::*;
use vstd::string::*;

verus! {

/// Code of a request that could not be decoded.
pub const MALFORMED_REQUEST: u32 = 400;

/// Code of an operation that failed, by validation or by I/O.
pub const OPERATION_FAILED: u32 = 500;

/// Code of an action that is recognized but not implemented.
pub const NOT_IMPLEMENTED: u32 = 501;

/// `r` is an error with code `code` and message `msg`.
pub open spec fn is_error(r: ResponseResult, code: u32, msg: Seq<char>) -> bool {
    r matches ResponseResult::Error { error, code: c } && c == code && error@ == msg
}

/// The answer to a line that does not decode as a request: the id is the
/// sentinel `unknown`, the code is 400.
pub fn malformed(detail: &str) -> (r: Response)
    ensures
        r.id@ == "unknown"@,
        is_error(r.result, MALFORMED_REQUEST, "Invalid request: "@ + detail@),
{
    Response {
        id: String::from_str("unknown"),
        result: ResponseResult::Error {
            error: String::from_str("Invalid request: ").concat(detail),
            code: MALFORMED_REQUEST,
        },
    }
}

/// The response to a decoded request: its id is echoed beside the result.
pub fn respond(id: String, result: ResponseResult) -> (r: Response)
    ensures
        r.id == id,
        r.result == result,
{
    Response { id, result }
}

/// The error result of a failed operation: code 500 with the error's message.
pub fn failure(e: &AgentError) -> (r: ResponseResult)
    ensures
        is_error(r, OPERATION_FAILED, headline(e.kind()) + e.detail()),
{
    ResponseResult::Error { error: e.message(), code: OPERATION_FAILED }
}

/// The result of an action that needs no file operation: `Ping` is answered
/// with `Pong`, the process actions with "not implemented"; `None` for the
/// file actions.
pub fn immediate(action: &Action) -> (r: Option<ResponseResult>)
    ensures
        action is Ping ==> r == Some(ResponseResult::Success(ResponseData::Pong)),
        (action is SystemInfo || action is ListProcesses || action is KillProcess) ==> (r matches Some(
            res,
        ) && is_error(res, NOT_IMPLEMENTED, "Not implemented yet"@)),
        !(action is Ping || action is SystemInfo || action is ListProcesses || action is KillProcess)
            ==> r is None,
{
    match action {
        Action::Ping => Some(ResponseResult::Success(ResponseData::Pong)),
        Action::SystemInfo | Action::ListProcesses | Action::KillProcess { .. } => Some(
            ResponseResult::Error { error: String::from_str("Not implemented yet"), code: NOT_IMPLEMENTED },
        ),
        _ => None,
    }
}

/// The result of a listing.
pub fn files_result(outcome: Result<Vec<FileInfo>, AgentError>) -> (r: ResponseResult)
    ensures
        outcome matches Ok(files) ==> r == ResponseResult::Success(ResponseData::Files { files }),
        outcome matches Err(e) ==> is_error(r, OPERATION_FAILED, headline(e.kind()) + e.detail()),
{
    match outcome {
        Ok(files) => ResponseResult::Success(ResponseData::Files { files }),
        Err(e) => failure(&e),
    }
}

/// The result of a read: the content and its size.
pub fn content_result(outcome: Result<(String, u64), AgentError>) -> (r: ResponseResult)
    ensures
        outcome matches Ok((content, size)) ==> r == ResponseResult::Success(
            ResponseData::FileContent { content, size },
        ),
        outcome matches Err(e) ==> is_error(r, OPERATION_FAILED, headline(e.kind()) + e.detail()),
{
    match outcome {
        Ok((content, size)) => ResponseResult::Success(ResponseData::FileContent { content, size }),
        Err(e) => failure(&e),
    }
}

/// The confirmation text of an action that changes files.
pub open spec fn confirmation(action: Action) -> Option<Seq<char>> {
    match action {
        Action::WriteFile { .. } => Some("File written successfully"@),
        Action::CreateDir { .. } => Some("Directory created successfully"@),
        Action::DeleteFile { .. } => Some("Deleted successfully"@),
        Action::CopyFile { .. } => Some("Copied successfully"@),
        Action::MoveFile { .. } => Some("Moved successfully"@),
        _ => None,
    }
}

/// The confirmation text of an action that changes files, if it is one.
pub fn success_message(action: &Action) -> (r: Option<String>)
    ensures
        r matches Some(m) ==> confirmation(*action) == Some(m@),
        r is None ==> confirmation(*action) is None,
{
    match action {
        Action::WriteFile { .. } => Some(String::from_str("File written successfully")),
        Action::CreateDir { .. } => Some(String::from_str("Directory created successfully")),
        Action::DeleteFile { .. } => Some(String::from_str("Deleted successfully")),
        Action::CopyFile { .. } => Some(String::from_str("Copied successfully")),
        Action::MoveFile { .. } => Some(String::from_str("Moved successfully")),
        _ => None,
    }
}

/// The result of an operation that changes files, confirmed by `message`.
pub fn done_result(message: String, outcome: Result<(), AgentError>) -> (r: ResponseResult)
    ensures
        outcome is Ok ==> r == ResponseResult::Success(ResponseData::Success { message }),
        outcome matches Err(e) ==> is_error(r, OPERATION_FAILED, headline(e.kind()) + e.detail()),
{
    match outcome {
        Ok(()) => ResponseResult::Success(ResponseData::Success { message }),
        Err(e) => failure(&e),
    }
}

/// What one read on a connection gave.
pub enum ReadEvent {
    /// A complete line.
    Line,
    /// The client closed the connection.
    EndOfStream,
    /// The read failed.
    Failed,
}

/// What a session does after a read.
#[derive(Clone, Copy, Debug, PartialEq, Eq, Structural)]
pub enum SessionStep {
    /// Dispatch the line, write the response and read again.
    Answer,
    /// End the session.
    Close,
}

/// A line is always answered and the session goes on, whatever the line
/// holds; the end of the stream or a failed read ends the session.
pub fn next_step(event: &ReadEvent) -> (r: SessionStep)
    ensures
        event is Line <==> r == SessionStep::Answer,
{
    match event {
        ReadEvent::Line => SessionStep::Answer,
        _ => SessionStep::Close,
    }
}

} // verus!
