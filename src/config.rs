//! The agent's configuration: endpoint, sandbox policy, logging and limits.
use vstd::prelude::*;
use vstd::string::*;

verus! {

/// The whole configuration, loaded once at startup.
#[derive(Clone, Debug)]
pub struct Config {
    pub server: ServerConfig,
    pub security: SecurityConfig,
    pub logging: LoggingConfig,
    pub performance: PerformanceConfig,
}

/// The listening endpoint.
#[derive(Clone, Debug)]
pub struct ServerConfig {
    pub socket_path: String,
    pub socket_permissions: u32,
    pub socket_group: String,
}

/// The sandbox policy.
#[derive(Clone, Debug)]
pub struct SecurityConfig {
    /// Directories under which access is permitted.
    pub allowed_paths: Vec<String>,
    /// Substrings, or suffixes when written with a leading `*`, that no
    /// accessible path may contain.
    pub forbidden_patterns: Vec<String>,
    /// Largest file, in bytes, that may be read or written.
    pub max_file_size: u64,
    /// Largest component count of an accessible path.
    pub max_path_depth: usize,
    pub audit_enabled: bool,
}

#[derive(Clone, Debug)]
pub struct LoggingConfig {
    pub level: String,
    pub audit_path: String,
}

/// Limits that are configured but not enforced by the dispatch path.
#[derive(Clone, Debug)]
pub struct PerformanceConfig {
    pub max_concurrent_operations: usize,
    pub operation_timeout_secs: u64,
}

pub const DEFAULT_MAX_FILE_SIZE: u64 = 100 * 1024 * 1024;

impl Config {
    /// The built-in configuration used when no configuration file is read.
    pub fn default() -> (r: Config)
        ensures
            r.server.socket_path@ == "/var/run/webdesk.sock"@,
            r.server.socket_permissions == 0o660,
            r.server.socket_group@ == "webdesk"@,
            r.security.allowed_paths@.len() == 3,
            r.security.allowed_paths@[0]@ == "/home"@,
            r.security.allowed_paths@[1]@ == "/media"@,
            r.security.allowed_paths@[2]@ == "/mnt"@,
            r.security.forbidden_patterns@.len() == 3,
            r.security.forbidden_patterns@[0]@ == ".ssh"@,
            r.security.forbidden_patterns@[1]@ == ".gnupg"@,
            r.security.forbidden_patterns@[2]@ == "*.key"@,
            r.security.max_file_size == DEFAULT_MAX_FILE_SIZE,
            r.security.max_path_depth == 10,
            r.security.audit_enabled,
            r.logging.level@ == "info"@,
            r.logging.audit_path@ == "/var/log/webdesk/audit.log"@,
            r.performance.max_concurrent_operations == 10,
            r.performance.operation_timeout_secs == 30,
    {
        Config {
            server: ServerConfig {
                socket_path: String::from_str("/var/run/webdesk.sock"),
                socket_permissions: 0o660,
                socket_group: String::from_str("webdesk"),
            },
            security: SecurityConfig {
                allowed_paths: vec![
                    String::from_str("/home"),
                    String::from_str("/media"),
                    String::from_str("/mnt"),
                ],
                forbidden_patterns: vec![
                    String::from_str(".ssh"),
                    String::from_str(".gnupg"),
                    String::from_str("*.key"),
                ],
                max_file_size: DEFAULT_MAX_FILE_SIZE,
                max_path_depth: 10,
                audit_enabled: true,
            },
            logging: LoggingConfig {
                level: String::from_str("info"),
                audit_path: String::from_str("/var/log/webdesk/audit.log"),
            },
            performance: PerformanceConfig { max_concurrent_operations: 10, operation_timeout_secs: 30 },
        }
    }
}

} // verus!
