use host_agent::config::{Config, SecurityConfig};
use host_agent::error::ErrorKind;
use host_agent::validator::{audit_entry, Lookup, Resolution, Validator};

fn test_config() -> SecurityConfig {
    SecurityConfig {
        allowed_paths: vec!["/tmp".to_string(), "/home".to_string()],
        forbidden_patterns: vec![".ssh".to_string(), "*.key".to_string()],
        max_file_size: 1024 * 1024,
        max_path_depth: 10,
        audit_enabled: false,
    }
}

/// Runs validation with a file system in which every path exists as written.
fn validate_existing(v: &Validator, raw: &str) -> Result<String, ErrorKind> {
    let mut step = v.begin_validation(raw);
    loop {
        match step {
            Resolution::Done { result, .. } => return result.map_err(|e| e.error_kind()),
            Resolution::Lookup { probe, len } => {
                step = v.continue_validation(raw, len, Lookup::Found(probe));
            }
        }
    }
}

#[test]
fn test_path_traversal() {
    let validator = Validator::new(test_config());
    assert!(validate_existing(&validator, "/tmp/../etc/passwd").is_err());
}

#[test]
fn test_forbidden_pattern() {
    let validator = Validator::new(test_config());
    assert!(validate_existing(&validator, "/home/user/.ssh/id_rsa").is_err());
    assert!(validate_existing(&validator, "/home/user/private.key").is_err());
}

#[test]
fn test_allowed_path() {
    let validator = Validator::new(test_config());
    assert_eq!(validate_existing(&validator, "/tmp/tests.txt"), Ok("/tmp/tests.txt".to_string()));
}

#[test]
fn traversal_is_rejected_before_any_lookup() {
    let v = Validator::new(test_config());
    match v.begin_validation("/tmp/a..b") {
        Resolution::Done { result: Err(e), .. } => {
            assert_eq!(e.error_kind(), ErrorKind::PathTraversal);
            assert_eq!(e.message(), "Path traversal attempt detected: /tmp/a..b");
        }
        _ => panic!("expected an immediate rejection"),
    }
}

#[test]
fn outside_every_root_is_not_allowed() {
    let v = Validator::new(test_config());
    assert_eq!(validate_existing(&v, "/etc/passwd"), Err(ErrorKind::PathNotAllowed));
    assert_eq!(validate_existing(&v, "/home2/u"), Err(ErrorKind::PathNotAllowed));
    assert_eq!(validate_existing(&v, "/tmpfile"), Err(ErrorKind::PathNotAllowed));
    assert_eq!(validate_existing(&v, "/home"), Ok("/home".to_string()));
}

#[test]
fn suffix_and_substring_patterns() {
    let mut cfg = test_config();
    cfg.allowed_paths = vec!["/home".to_string()];
    let v = Validator::new(cfg);
    assert_eq!(validate_existing(&v, "/home/u/id.key"), Err(ErrorKind::PermissionDenied));
    assert_eq!(validate_existing(&v, "/home/u/id.keyx"), Ok("/home/u/id.keyx".to_string()));
    assert_eq!(validate_existing(&v, "/home/u/.ssh/id_rsa"), Err(ErrorKind::PermissionDenied));
    assert_eq!(validate_existing(&v, "/home/.ssh-backup/x"), Err(ErrorKind::PermissionDenied));
    assert!(v.contains_forbidden_pattern("/home/.ssh-backup/x"));
    assert!(!v.contains_forbidden_pattern("/home/u/id.keyx"));
}

#[test]
fn depth_limit() {
    let mut cfg = test_config();
    cfg.max_path_depth = 3;
    let v = Validator::new(cfg);
    assert_eq!(validate_existing(&v, "/tmp/a"), Ok("/tmp/a".to_string()));
    match validate_path_error(&v, "/tmp/a/b") {
        Some((kind, msg)) => {
            assert_eq!(kind, ErrorKind::PermissionDenied);
            assert_eq!(msg, "Permission denied: Path depth exceeds limit");
        }
        None => panic!("expected a rejection"),
    }
}

fn validate_path_error(v: &Validator, raw: &str) -> Option<(ErrorKind, String)> {
    match v.begin_validation(raw) {
        Resolution::Done { result: Err(e), .. } => Some((e.error_kind(), e.message())),
        Resolution::Done { result: Ok(_), .. } => None,
        Resolution::Lookup { probe, len } => match v.continue_validation(raw, len, Lookup::Found(probe)) {
            Resolution::Done { result: Err(e), .. } => Some((e.error_kind(), e.message())),
            _ => None,
        },
    }
}

#[test]
fn missing_path_resolves_through_its_ancestor() {
    let v = Validator::new(test_config());
    let raw = "/tmp/new/dir/file.txt";
    let mut step = v.begin_validation(raw);
    let mut probes = Vec::new();
    loop {
        match step {
            Resolution::Done { result, audit_path } => {
                assert_eq!(result.ok(), Some("/tmp/new/dir/file.txt".to_string()));
                assert_eq!(audit_path, "/tmp/new/dir/file.txt");
                break;
            }
            Resolution::Lookup { probe, len } => {
                probes.push(probe.clone());
                let outcome = if probe == "/tmp" { Lookup::Found("/tmp/".to_string()) } else { Lookup::NotFound };
                step = v.continue_validation(raw, len, outcome);
            }
        }
    }
    assert_eq!(probes, vec!["/tmp/new/dir/file.txt", "/tmp/new/dir", "/tmp/new", "/tmp"]);
}

#[test]
fn resolved_outside_roots_after_fallback() {
    let v = Validator::new(test_config());
    let raw = "/tmp/link/x";
    let step = v.continue_validation(raw, 9, Lookup::Found("/etc".to_string()));
    match step {
        Resolution::Done { result: Err(e), .. } => {
            assert_eq!(e.error_kind(), ErrorKind::PathNotAllowed);
            assert_eq!(e.message(), "Path not allowed: /etc/x");
        }
        _ => panic!("expected a rejection"),
    }
}

#[test]
fn no_ancestor_is_not_found() {
    let v = Validator::new(test_config());
    match v.continue_validation("/nowhere", 8, Lookup::NotFound) {
        Resolution::Lookup { probe, len } => {
            assert_eq!(probe, "/");
            assert_eq!(len, 1);
            match v.continue_validation("/nowhere", len, Lookup::NotFound) {
                Resolution::Done { result: Err(e), .. } => assert_eq!(e.error_kind(), ErrorKind::FileNotFound),
                _ => panic!("expected not found"),
            }
        }
        _ => panic!("expected a lookup of the root"),
    }
}

#[test]
fn other_lookup_failure_is_io() {
    let v = Validator::new(test_config());
    match v.continue_validation("/tmp/x", 6, Lookup::Failed("denied".to_string())) {
        Resolution::Done { result: Err(e), .. } => {
            assert_eq!(e.error_kind(), ErrorKind::Io);
            assert_eq!(e.message(), "IO error: denied");
        }
        _ => panic!("expected an I/O error"),
    }
}

#[test]
fn size_limits() {
    let mut cfg = test_config();
    cfg.max_file_size = 4;
    let v = Validator::new(cfg);
    assert_eq!(v.validate_file_size(4).ok(), Some(4));
    assert_eq!(v.validate_file_size(5).err().map(|e| e.error_kind()), Some(ErrorKind::PermissionDenied));
    assert_eq!(
        v.validate_file_size(1234).err().map(|e| e.message()),
        Some("Permission denied: File size 1234 exceeds limit 4".to_string())
    );
    assert!(v.validate_content_size("abcd").is_ok());
    let e = v.validate_content_size("abcde").err().map(|e| e.message());
    assert_eq!(e, Some("Permission denied: Content size exceeds limit".to_string()));
    // four characters, eight bytes
    assert!(v.validate_content_size("éééé").is_err());
}

#[test]
fn default_config_values() {
    let c = Config::default();
    assert_eq!(c.server.socket_path, "/var/run/webdesk.sock");
    assert_eq!(c.server.socket_permissions, 0o660);
    assert_eq!(c.security.allowed_paths, vec!["/home", "/media", "/mnt"]);
    assert_eq!(c.security.forbidden_patterns, vec![".ssh", ".gnupg", "*.key"]);
    assert_eq!(c.security.max_file_size, 100 * 1024 * 1024);
    assert_eq!(c.security.max_path_depth, 10);
    assert!(c.security.audit_enabled);
    assert_eq!(c.performance.max_concurrent_operations, 10);
    assert_eq!(c.performance.operation_timeout_secs, 30);
    let v = Validator::new(c.security.clone());
    assert_eq!(v.config().max_path_depth, 10);
}

#[test]
fn audit_path_is_resolved_or_raw() {
    let v = Validator::new(test_config());
    match v.continue_validation("/tmp/link/x", 9, Lookup::Found("/etc".to_string())) {
        Resolution::Done { audit_path, .. } => assert_eq!(audit_path, "/etc/x"),
        _ => panic!("expected a verdict"),
    }
    match v.begin_validation("/tmp/../etc") {
        Resolution::Done { audit_path, .. } => assert_eq!(audit_path, "/tmp/../etc"),
        _ => panic!("expected a rejection"),
    }
    match v.continue_validation("/tmp/x", 6, Lookup::Failed("denied".to_string())) {
        Resolution::Done { audit_path, .. } => assert_eq!(audit_path, "/tmp/x"),
        _ => panic!("expected a rejection"),
    }
}

#[test]
fn audit_entries() {
    let mut cfg = test_config();
    cfg.audit_enabled = true;
    assert_eq!(
        audit_entry(&cfg, "2024-01-02 03:04:05", "READ", "/tmp/a", true),
        Some("[2024-01-02 03:04:05] READ | /tmp/a | SUCCESS".to_string())
    );
    assert_eq!(
        audit_entry(&cfg, "t", "DELETE", "/etc", false),
        Some("[t] DELETE | /etc | FAILED".to_string())
    );
    cfg.audit_enabled = false;
    assert_eq!(audit_entry(&cfg, "t", "READ", "/tmp/a", true), None);
}
