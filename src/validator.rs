//! The path validator: decides, for one candidate path, whether the sandbox
//! policy lets a file operation touch it.
//!
//! Canonicalization needs the filesystem, so validation runs as a small
//! state machine: [`Validator::begin_validation`] screens the raw text and
//! asks for a lookup, [`Validator::continue_validation`] takes each lookup's
//! outcome and either asks for the next one (an ancestor of the path) or
//! finishes with the validated canonical path or a classified rejection.
use crate::config::SecurityConfig;
use crate::error::{AgentError, ErrorKind};
use crate::numerals::{decimal, decimal_text};
use crate::paths::{
    absolute, contains, depth, ends_with, is_under, joined, parent_len, path_depth, path_is_under,
    parent_length, skip_separators, skip_seps, str_contains, str_ends_with, join_path,
};
use vstd::prelude::*;
use vstd::string::*;

verus! {

/// `p` lies under at least one allowed root.
pub open spec fn allowed(cfg: SecurityConfig, p: Seq<char>) -> bool {
    exists|i: int| 0 <= i < cfg.allowed_paths@.len() && is_under(p, #[trigger] cfg.allowed_paths@[i]@)
}

/// A pattern with a leading `*` matches paths that end with the rest of it;
/// any other pattern matches paths that contain it.
pub open spec fn pattern_matches(pat: Seq<char>, p: Seq<char>) -> bool {
    if pat.len() > 0 && pat[0] == '*' {
        ends_with(p, pat.drop_first())
    } else {
        contains(p, pat)
    }
}

/// `p` matches at least one forbidden pattern.
pub open spec fn forbidden(cfg: SecurityConfig, p: Seq<char>) -> bool {
    exists|i: int|
        0 <= i < cfg.forbidden_patterns@.len() && pattern_matches(
            #[trigger] cfg.forbidden_patterns@[i]@,
            p,
        )
}

/// `r` has kind `k` and detail `d`.
pub open spec fn fails_with(r: Result<String, AgentError>, k: ErrorKind, d: Seq<char>) -> bool {
    r is Err && r->Err_0.kind() == k && r->Err_0.detail() == d
}

/// `r` is the verdict of the policy on the canonical path `c`: containment,
/// then forbidden patterns, then depth; success hands back `c` itself.
pub open spec fn verdict(cfg: SecurityConfig, c: Seq<char>, r: Result<String, AgentError>) -> bool {
    if !allowed(cfg, c) {
        fails_with(r, ErrorKind::PathNotAllowed, c)
    } else if forbidden(cfg, c) {
        fails_with(r, ErrorKind::PermissionDenied, "Path contains forbidden pattern"@)
    } else if depth(c) > cfg.max_path_depth {
        fails_with(r, ErrorKind::PermissionDenied, "Path depth exceeds limit"@)
    } else {
        r is Ok && r->Ok_0@ == c
    }
}

/// The canonical form of `raw` when the lookup of its first `n` characters
/// found them at `c`: the rest of `raw` is appended unresolved.
pub open spec fn resolved(raw: Seq<char>, n: int, c: Seq<char>) -> Seq<char> {
    joined(c, raw.subrange(skip_seps(raw, n), raw.len() as int))
}

/// Every root of the policy is an absolute path.
pub open spec fn roots_absolute(cfg: SecurityConfig) -> bool {
    forall|i: int|
        0 <= i < cfg.allowed_paths@.len() ==> (#[trigger] cfg.allowed_paths@[i]@).len() > 0
            && cfg.allowed_paths@[i]@[0] == '/'
}

/// A canonical path is accepted exactly when it lies under an allowed root,
/// matches no forbidden pattern and is within the depth limit; outside every
/// root it is rejected as not allowed; an accepted path is handed back as it
/// is, and is absolute when every root is.
pub proof fn acceptance_law(cfg: SecurityConfig, c: Seq<char>, r: Result<String, AgentError>)
    requires
        verdict(cfg, c, r),
    ensures
        r is Ok <==> (allowed(cfg, c) && !forbidden(cfg, c) && depth(c) <= cfg.max_path_depth),
        !allowed(cfg, c) ==> fails_with(r, ErrorKind::PathNotAllowed, c),
        r is Ok ==> r->Ok_0@ == c,
        r is Ok && roots_absolute(cfg) ==> c.len() > 0 && c[0] == '/',
{
    if r is Ok && roots_absolute(cfg) {
        let i = choose|i: int| 0 <= i < cfg.allowed_paths@.len() && is_under(c, #[trigger] cfg.allowed_paths@[i]@);
        assert(absolute(cfg.allowed_paths@[i]@));
    }
}

/// What a canonicalizing lookup of a path reported.
pub enum Lookup {
    /// The path exists; this is its canonical form.
    Found(String),
    /// Neither the path nor the directory it names exists.
    NotFound,
    /// Any other failure, with its description.
    Failed(String),
}

/// What validation needs next.
pub enum Resolution {
    /// Canonicalize `probe`, which is the first `len` characters of the raw
    /// path, and hand the outcome to `continue_validation`.
    Lookup { probe: String, len: usize },
    /// Validation is over: the validated path or the rejection, and the path
    /// to record for it, which is the resolved path where resolution
    /// succeeded and the raw path otherwise.
    Done { result: Result<String, AgentError>, audit_path: String },
}

/// Applies a sandbox policy to candidate paths and file sizes.
#[derive(Clone)]
pub struct Validator {
    pub config: SecurityConfig,
}

impl Validator {
    pub fn new(config: SecurityConfig) -> (r: Validator)
        ensures
            r.config == config,
    {
        Validator { config }
    }

    pub fn config(&self) -> (r: &SecurityConfig)
        ensures
            *r == self.config,
    {
        &self.config
    }

    /// Whether `path` lies under one of the allowed roots.
    pub fn is_path_allowed(&self, path: &str) -> (r: bool)
        ensures
            r == allowed(self.config, path@),
    {
        let roots = &self.config.allowed_paths;
        let mut i: usize = 0;
        while i < roots.len()
            invariant
                roots == &self.config.allowed_paths,
                i <= roots@.len(),
                forall|k: int| 0 <= k < i ==> !is_under(path@, #[trigger] roots@[k]@),
            decreases roots@.len() - i,
        {
            if path_is_under(path, roots[i].as_str()) {
                return true;
            }
            i = i + 1;
        }
        false
    }

    /// Whether `path` matches one of the forbidden patterns.
    pub fn contains_forbidden_pattern(&self, path: &str) -> (r: bool)
        ensures
            r == forbidden(self.config, path@),
    {
        let patterns = &self.config.forbidden_patterns;
        let mut i: usize = 0;
        while i < patterns.len()
            invariant
                patterns == &self.config.forbidden_patterns,
                i <= patterns@.len(),
                forall|k: int| 0 <= k < i ==> !pattern_matches(#[trigger] patterns@[k]@, path@),
            decreases patterns@.len() - i,
        {
            let pattern = patterns[i].as_str();
            let plen = pattern.unicode_len();
            let hit = if plen > 0 && pattern.get_char(0) == '*' {
                let ext = pattern.substring_char(1, plen);
                assert(ext@ =~= pattern@.drop_first());
                str_ends_with(path, ext)
            } else {
                str_contains(path, pattern)
            };
            if hit {
                return true;
            }
            i = i + 1;
        }
        false
    }

    /// Holds a canonical path to the policy: it must lie under an allowed
    /// root, match no forbidden pattern, and not be deeper than the limit.
    pub fn check_canonical(&self, canonical: String) -> (r: Result<String, AgentError>)
        ensures
            verdict(self.config, canonical@, r),
    {
        if !self.is_path_allowed(canonical.as_str()) {
            return Err(AgentError::PathNotAllowed(canonical));
        }
        if self.contains_forbidden_pattern(canonical.as_str()) {
            return Err(AgentError::PermissionDenied(String::from_str("Path contains forbidden pattern")));
        }
        if path_depth(canonical.as_str()) > self.config.max_path_depth {
            return Err(AgentError::PermissionDenied(String::from_str("Path depth exceeds limit")));
        }
        Ok(canonical)
    }

    /// First step of validating the raw path `path`: text holding `..` is
    /// rejected at once; any other path is to be canonicalized whole.
    pub fn begin_validation(&self, path: &str) -> (r: Resolution)
        ensures
            contains(path@, ".."@) ==> (r matches Resolution::Done { result, audit_path }
                && fails_with(result, ErrorKind::PathTraversal, path@) && audit_path@ == path@),
            !contains(path@, ".."@) ==> (r matches Resolution::Lookup { probe, len } && probe@
                == path@ && len == path@.len()),
    {
        if str_contains(path, "..") {
            return Resolution::Done {
                result: Err(AgentError::PathTraversal(String::from_str(path))),
                audit_path: String::from_str(path),
            };
        }
        Resolution::Lookup { probe: String::from_str(path), len: path.unicode_len() }
    }

    /// Next step of validating `path`, given the outcome of the lookup of its
    /// first `probe_len` characters. A found path is completed with the rest
    /// of `path` and held to the policy; a missing one sends the lookup to its
    /// parent, and with no parent left the path is not found; any other
    /// failure is an I/O error.
    pub fn continue_validation(&self, path: &str, probe_len: usize, outcome: Lookup) -> (r:
        Resolution)
        requires
            probe_len <= path@.len(),
        ensures
            outcome matches Lookup::Found(c) ==> (r matches Resolution::Done { result, audit_path }
                && verdict(self.config, resolved(path@, probe_len as int, c@), result)
                && audit_path@ == resolved(path@, probe_len as int, c@)),
            outcome matches Lookup::Failed(m) ==> (r matches Resolution::Done { result, audit_path }
                && fails_with(result, ErrorKind::Io, m@) && audit_path@ == path@),
            outcome is NotFound && parent_len(path@, probe_len as int) is None ==> (r matches Resolution::Done {
                result,
                audit_path,
            } && fails_with(result, ErrorKind::FileNotFound, path@) && audit_path@ == path@),
            outcome is NotFound && parent_len(path@, probe_len as int) is Some ==> (r matches Resolution::Lookup {
                probe,
                len,
            } && parent_len(path@, probe_len as int) == Some(len as int) && len < probe_len
                && probe@ == path@.subrange(0, len as int)),
    {
        match outcome {
            Lookup::Found(c) => {
                let start = skip_separators(path, probe_len);
                let rest = path.substring_char(start, path.unicode_len());
                let full = join_path(c, rest);
                let audit_path = String::from_str(full.as_str());
                Resolution::Done { result: self.check_canonical(full), audit_path }
            },
            Lookup::Failed(m) => Resolution::Done {
                result: Err(AgentError::Io(m)),
                audit_path: String::from_str(path),
            },
            Lookup::NotFound => match parent_length(path, probe_len) {
                Some(k) => Resolution::Lookup { probe: String::from_str(path.substring_char(0, k)), len: k },
                None => Resolution::Done {
                    result: Err(AgentError::FileNotFound(String::from_str(path))),
                    audit_path: String::from_str(path),
                },
            },
        }
    }

    /// Holds a file's size to the size limit; the size is handed back.
    pub fn validate_file_size(&self, size: u64) -> (r: Result<u64, AgentError>)
        ensures
            size <= self.config.max_file_size ==> r == Ok::<u64, AgentError>(size),
            size > self.config.max_file_size ==> (r matches Err(e) && e.kind()
                == ErrorKind::PermissionDenied && e.detail() == "File size "@ + decimal(size as nat)
                + " exceeds limit "@ + decimal(self.config.max_file_size as nat)),
    {
        if size > self.config.max_file_size {
            let detail = String::from_str("File size ").concat(decimal_text(size).as_str()).concat(
                " exceeds limit ",
            ).concat(decimal_text(self.config.max_file_size).as_str());
            return Err(AgentError::PermissionDenied(detail));
        }
        Ok(size)
    }

    /// Holds content about to be written to the size limit, by its length in
    /// bytes.
    pub fn validate_content_size(&self, content: &str) -> (r: Result<(), AgentError>)
        ensures
            content.len() <= self.config.max_file_size ==> r is Ok,
            content.len() > self.config.max_file_size ==> (r matches Err(e)
                && e.kind() == ErrorKind::PermissionDenied && e.detail()
                == "Content size exceeds limit"@),
    {
        if content.len() as u64 > self.config.max_file_size {
            return Err(AgentError::PermissionDenied(String::from_str("Content size exceeds limit")));
        }
        Ok(())
    }
}

/// The audit record of one validation, or `None` when auditing is off:
/// `[timestamp] operation | path | SUCCESS` or `... | FAILED`.
pub fn audit_entry(cfg: &SecurityConfig, timestamp: &str, operation: &str, path: &str, success: bool) -> (r:
    Option<String>)
    ensures
        r is Some <==> cfg.audit_enabled,
        r matches Some(t) ==> t@ == "["@ + timestamp@ + "] "@ + operation@ + " | "@ + path@ + " | "@
            + (if success {
            "SUCCESS"@
        } else {
            "FAILED"@
        }),
{
    if !cfg.audit_enabled {
        return None;
    }
    let status = if success {
        "SUCCESS"
    } else {
        "FAILED"
    };
    Some(
        String::from_str("[").concat(timestamp).concat("] ").concat(operation).concat(" | ").concat(
            path,
        ).concat(" | ").concat(status),
    )
}

} // verus!
