//! The error taxonomy of the agent.
use vstd::prelude::*;
use vstd::string::*;

verus! {

/// The class of an [`AgentError`], without its payload.
#[derive(Clone, Copy, Debug, PartialEq, Eq, Structural)]
pub enum ErrorKind {
    PermissionDenied,
    PathNotAllowed,
    PathTraversal,
    FileNotFound,
    Io,
    InvalidRequest,
    Timeout,
    Internal,
}

/// A classified failure; the payload is a human-readable detail.
#[derive(Clone, Debug)]
pub enum AgentError {
    PermissionDenied(String),
    PathNotAllowed(String),
    PathTraversal(String),
    FileNotFound(String),
    Io(String),
    InvalidRequest(String),
    Timeout,
    Internal(String),
}

/// The leading text of the message of each kind of error.
pub open spec fn headline(k: ErrorKind) -> Seq<char> {
    match k {
        ErrorKind::PermissionDenied => "Permission denied: "@,
        ErrorKind::PathNotAllowed => "Path not allowed: "@,
        ErrorKind::PathTraversal => "Path traversal attempt detected: "@,
        ErrorKind::FileNotFound => "File not found: "@,
        ErrorKind::Io => "IO error: "@,
        ErrorKind::InvalidRequest => "Invalid request: "@,
        ErrorKind::Timeout => "Operation timeout"@,
        ErrorKind::Internal => "Internal error: "@,
    }
}

impl AgentError {
    pub open spec fn kind(&self) -> ErrorKind {
        match self {
            AgentError::PermissionDenied(_) => ErrorKind::PermissionDenied,
            AgentError::PathNotAllowed(_) => ErrorKind::PathNotAllowed,
            AgentError::PathTraversal(_) => ErrorKind::PathTraversal,
            AgentError::FileNotFound(_) => ErrorKind::FileNotFound,
            AgentError::Io(_) => ErrorKind::Io,
            AgentError::InvalidRequest(_) => ErrorKind::InvalidRequest,
            AgentError::Timeout => ErrorKind::Timeout,
            AgentError::Internal(_) => ErrorKind::Internal,
        }
    }

    /// The payload's text; empty for `Timeout`.
    pub open spec fn detail(&self) -> Seq<char> {
        match self {
            AgentError::PermissionDenied(m) => m@,
            AgentError::PathNotAllowed(m) => m@,
            AgentError::PathTraversal(m) => m@,
            AgentError::FileNotFound(m) => m@,
            AgentError::Io(m) => m@,
            AgentError::InvalidRequest(m) => m@,
            AgentError::Timeout => Seq::empty(),
            AgentError::Internal(m) => m@,
        }
    }

    /// The class of this error.
    pub fn error_kind(&self) -> (r: ErrorKind)
        ensures
            r == self.kind(),
    {
        match self {
            AgentError::PermissionDenied(_) => ErrorKind::PermissionDenied,
            AgentError::PathNotAllowed(_) => ErrorKind::PathNotAllowed,
            AgentError::PathTraversal(_) => ErrorKind::PathTraversal,
            AgentError::FileNotFound(_) => ErrorKind::FileNotFound,
            AgentError::Io(_) => ErrorKind::Io,
            AgentError::InvalidRequest(_) => ErrorKind::InvalidRequest,
            AgentError::Timeout => ErrorKind::Timeout,
            AgentError::Internal(_) => ErrorKind::Internal,
        }
    }

    /// The message shown to a client: the kind's headline, then the detail.
    pub fn message(&self) -> (r: String)
        ensures
            r@ == headline(self.kind()) + self.detail(),
    {
        match self {
            AgentError::PermissionDenied(m) => String::from_str("Permission denied: ").concat(m.as_str()),
            AgentError::PathNotAllowed(m) => String::from_str("Path not allowed: ").concat(m.as_str()),
            AgentError::PathTraversal(m) => String::from_str("Path traversal attempt detected: ").concat(
                m.as_str(),
            ),
            AgentError::FileNotFound(m) => String::from_str("File not found: ").concat(m.as_str()),
            AgentError::Io(m) => String::from_str("IO error: ").concat(m.as_str()),
            AgentError::InvalidRequest(m) => String::from_str("Invalid request: ").concat(m.as_str()),
            AgentError::Timeout => {
                let r = String::from_str("Operation timeout");
                assert(r@ == r@ + Seq::<char>::empty());
                r
            },
            AgentError::Internal(m) => String::from_str("Internal error: ").concat(m.as_str()),
        }
    }
}

} // verus!
