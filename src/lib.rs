//! A sandboxing file agent: requests name paths, and every path is held to
//! an administrator's policy before any file operation may use it.
pub mod config;
pub mod dispatch;
pub mod error;
pub mod handler;
pub mod listing;
pub mod numerals;
pub mod paths;
pub mod protocol;
pub mod validator;
