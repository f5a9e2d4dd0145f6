//! The operation executor's own decisions, apart from the file system calls.
use crate::error::{AgentError, ErrorKind};
use crate::validator::Validator;
use vstd::prelude::*;
use vstd::string::*;

verus! {

/// Carries out file operations on paths that its validator has accepted.
pub struct FileHandler {
    validator: Validator,
}

impl FileHandler {
    pub fn new(validator: Validator) -> (r: FileHandler)
        ensures
            r.validator() == validator,
    {
        FileHandler { validator }
    }

    pub closed spec fn validator(&self) -> Validator {
        self.validator
    }

    /// The validator that every path goes through.
    pub fn path_validator(&self) -> (r: &Validator)
        ensures
            *r == self.validator(),
    {
        &self.validator
    }
}

/// A source or target that must exist: when it does not, the raw path is
/// not found.
pub fn require_existing(exists: bool, raw: &str) -> (r: Result<(), AgentError>)
    ensures
        exists ==> r is Ok,
        !exists ==> (r matches Err(e) && e.kind() == ErrorKind::FileNotFound && e.detail() == raw@),
{
    if exists {
        Ok(())
    } else {
        Err(AgentError::FileNotFound(String::from_str(raw)))
    }
}

/// A listing needs a directory.
pub fn require_directory(is_dir: bool) -> (r: Result<(), AgentError>)
    ensures
        is_dir ==> r is Ok,
        !is_dir ==> (r matches Err(e) && e.kind() == ErrorKind::InvalidRequest && e.detail()
            == "Path is not a directory"@),
{
    if is_dir {
        Ok(())
    } else {
        Err(AgentError::InvalidRequest(String::from_str("Path is not a directory")))
    }
}

/// The error of a failed read: content that is not text is an invalid
/// request, any other failure an I/O error with its description.
pub fn read_failure(not_text: bool, detail: String) -> (r: AgentError)
    ensures
        not_text ==> r.kind() == ErrorKind::InvalidRequest && r.detail()
            == "File is not valid UTF-8 text"@,
        !not_text ==> r.kind() == ErrorKind::Io && r.detail() == detail@,
{
    if not_text {
        AgentError::InvalidRequest(String::from_str("File is not valid UTF-8 text"))
    } else {
        AgentError::Io(detail)
    }
}

} // verus!
