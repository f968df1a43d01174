//! The library's error type.
use vstd::prelude::*;

use crate::text::push_str;

verus! {

/// Central error type.
#[derive(Debug, Clone, PartialEq, Eq)]
pub enum LockpickError {
    /// I/O errors (file read/write), with the system's message.
    Io(String),
    /// Parse errors (lockfile, config, JSON, YAML).
    Parse(String),
    /// No lockfile found in project.
    NoLockfile(String),
    /// Configuration errors.
    Config(String),
    /// Network errors (OSV API, registry).
    Network(String),
    /// Report generation errors.
    Report(String),
}

/// The text shown for an error: a prefix naming its kind, then its detail.
pub open spec fn error_text(e: LockpickError) -> Seq<char> {
    match e {
        LockpickError::Io(m) => "I/O error: "@ + m@,
        LockpickError::Parse(m) => "Parse error: "@ + m@,
        LockpickError::NoLockfile(m) => "No lockfile found: "@ + m@,
        LockpickError::Config(m) => "Config error: "@ + m@,
        LockpickError::Network(m) => "Network error: "@ + m@,
        LockpickError::Report(m) => "Report error: "@ + m@,
    }
}

impl LockpickError {
    /// The error as text (what `Display` shows).
    pub fn message(&self) -> (s: String)
        ensures
            s@ == error_text(*self),
    {
        let mut s = String::new();
        let detail: &String = match self {
            LockpickError::Io(m) => {
                push_str(&mut s, "I/O error: ");
                m
            },
            LockpickError::Parse(m) => {
                push_str(&mut s, "Parse error: ");
                m
            },
            LockpickError::NoLockfile(m) => {
                push_str(&mut s, "No lockfile found: ");
                m
            },
            LockpickError::Config(m) => {
                push_str(&mut s, "Config error: ");
                m
            },
            LockpickError::Network(m) => {
                push_str(&mut s, "Network error: ");
                m
            },
            LockpickError::Report(m) => {
                push_str(&mut s, "Report error: ");
                m
            },
        };
        push_str(&mut s, detail.as_str());
        s
    }
}

} // verus!
