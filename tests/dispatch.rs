use host_agent::dispatch::{
    content_result, done_result, failure, respond, files_result, immediate, malformed, next_step, success_message,
    ReadEvent, SessionStep,
};
use host_agent::error::AgentError;
use host_agent::handler::{read_failure, require_directory, require_existing, FileHandler};
use host_agent::error::ErrorKind;
use host_agent::protocol::{Action, ResponseData, ResponseResult};
use host_agent::config::Config;
use host_agent::validator::Validator;

fn error_of(r: &ResponseResult) -> Option<(String, u32)> {
    match r {
        ResponseResult::Error { error, code } => Some((error.clone(), *code)),
        _ => None,
    }
}

#[test]
fn malformed_line_gets_sentinel_id_and_400() {
    let r = malformed("expected value at line 1 column 1");
    assert_eq!(r.id, "unknown");
    assert_eq!(
        error_of(&r.result),
        Some(("Invalid request: expected value at line 1 column 1".to_string(), 400))
    );
    assert_eq!(next_step(&ReadEvent::Line), SessionStep::Answer);
}

#[test]
fn session_ends_on_end_of_stream_or_failure() {
    assert_eq!(next_step(&ReadEvent::EndOfStream), SessionStep::Close);
    assert_eq!(next_step(&ReadEvent::Failed), SessionStep::Close);
}

#[test]
fn ping_and_stubs() {
    assert!(matches!(immediate(&Action::Ping), Some(ResponseResult::Success(ResponseData::Pong))));
    for a in [Action::SystemInfo, Action::ListProcesses, Action::KillProcess { pid: 1 }] {
        let r = immediate(&a).expect("answered at once");
        assert_eq!(error_of(&r), Some(("Not implemented yet".to_string(), 501)));
    }
    assert!(immediate(&Action::ListFiles { path: "/home".to_string() }).is_none());
}

#[test]
fn failures_carry_code_500_and_message() {
    let r = failure(&AgentError::PathNotAllowed("/etc".to_string()));
    assert_eq!(error_of(&r), Some(("Path not allowed: /etc".to_string(), 500)));
    let r = files_result(Err(AgentError::Timeout));
    assert_eq!(error_of(&r), Some(("Operation timeout".to_string(), 500)));
    let r = content_result(Ok(("hi".to_string(), 2)));
    assert!(matches!(r, ResponseResult::Success(ResponseData::FileContent { ref content, size: 2 }) if content == "hi"));
}

#[test]
fn confirmations() {
    let a = Action::DeleteFile { path: "/home/x".to_string() };
    let m = success_message(&a).expect("a changing action");
    assert_eq!(m, "Deleted successfully");
    let r = done_result(m, Ok(()));
    assert!(matches!(r, ResponseResult::Success(ResponseData::Success { ref message }) if message == "Deleted successfully"));
    assert!(success_message(&Action::Ping).is_none());
    let w = success_message(&Action::WriteFile { path: "p".to_string(), content: "c".to_string() });
    assert_eq!(w.as_deref(), Some("File written successfully"));
}

#[test]
fn executor_decisions() {
    let e = require_existing(false, "/home/gone").err().expect("missing");
    assert_eq!(e.error_kind(), ErrorKind::FileNotFound);
    assert_eq!(e.message(), "File not found: /home/gone");
    assert!(require_existing(true, "/home/here").is_ok());
    assert_eq!(require_directory(false).err().map(|e| e.message()), Some("Invalid request: Path is not a directory".to_string()));
    assert_eq!(read_failure(true, "x".to_string()).error_kind(), ErrorKind::InvalidRequest);
    assert_eq!(read_failure(false, "broken pipe".to_string()).message(), "IO error: broken pipe");
    let h = FileHandler::new(Validator::new(Config::default().security));
    assert_eq!(h.path_validator().config().max_path_depth, 10);
}

#[test]
fn response_echoes_the_id() {
    let r = respond("req-7".to_string(), ResponseResult::Success(ResponseData::Pong));
    assert_eq!(r.id, "req-7");
    assert!(matches!(r.result, ResponseResult::Success(ResponseData::Pong)));
}
