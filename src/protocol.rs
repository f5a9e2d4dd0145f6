//! Request and response records of the line protocol.
use crate::listing::FileInfo;
use vstd::prelude::*;

verus! {

/// One client request: a correlation token and the action asked for.
pub struct Request {
    pub id: String,
    pub action: Action,
}

/// The closed set of actions a client may ask for.
pub enum Action {
    ListFiles { path: String },
    ReadFile { path: String },
    WriteFile { path: String, content: String },
    CreateDir { path: String },
    DeleteFile { path: String },
    CopyFile { from: String, to: String },
    MoveFile { from: String, to: String },
    SystemInfo,
    ListProcesses,
    KillProcess { pid: u32 },
    Ping,
}

/// The answer to one request; `id` echoes the request's token.
pub struct Response {
    pub id: String,
    pub result: ResponseResult,
}

/// A success payload, or an error message with its numeric code.
pub enum ResponseResult {
    Success(ResponseData),
    Error { error: String, code: u32 },
}

/// The success payloads that the dispatcher produces.
pub enum ResponseData {
    Files { files: Vec<FileInfo> },
    FileContent { content: String, size: u64 },
    Success { message: String },
    Pong,
}

} // verus!
