use vstd::prelude::*;

verus! {

/// Every failure the library reports.
///
/// Each variant carries the offending name or path, so a caller can say
/// what went wrong without the library doing any formatting of its own.
#[derive(Debug, PartialEq, Eq)]
pub enum Error {
    /// A file could not be opened, read or written (reported by the caller
    /// that did the I/O; the library itself never touches the file system).
    Io { subject: String },
    /// A document or an env-file line is malformed.
    InvalidFormat { subject: String },
    /// A setup or a project with this name or key is already present.
    AlreadyExists { name: String },
    /// A setup, env var or project registration is missing.
    NotFound { name: String },
    /// A path is not absolute where an absolute one is required, or has no
    /// file name.
    InvalidPath { path: String },
    /// A local configuration without a backing path cannot be synced.
    MissingPath,
    /// Neither an explicit override nor a persisted pointer names a current
    /// selection.
    NoCurrentSelection,
    /// An external process failed; `exit_code` is `None` when the process
    /// was ended by a signal.
    Exec { exit_code: Option<i32> },
}

impl Error {
    /// True exactly when this error is a process failure whose exit code is
    /// known and equals `code`.
    pub open spec fn is_exit_code(&self, code: i32) -> bool {
        self matches Error::Exec { exit_code: Some(c) } && c == code
    }

    /// Whether a process failure ended with the given exit code.
    pub fn exit_code_eq(&self, code: i32) -> (r: bool)
        ensures
            r == self.is_exit_code(code),
    {
        match self {
            Error::Exec { exit_code: Some(c) } => *c == code,
            _ => false,
        }
    }
}

impl From<Option<i32>> for Error {
    /// Wrap the exit status of a failed process.
    fn from(exit_code: Option<i32>) -> (r: Error) {
        Error::Exec { exit_code }
    }
}

impl vstd::std_specs::convert::FromSpecImpl<Option<i32>> for Error {
    open spec fn obeys_from_spec() -> bool {
        true
    }

    open spec fn from_spec(exit_code: Option<i32>) -> Error {
        Error::Exec { exit_code }
    }
}

} // verus!
