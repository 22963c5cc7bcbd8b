//! The errors of a backup, a schedule change or a path check.
use vstd::prelude::*;

verus! {

/// `std::io::Error`, carried through the library unread.
#[verifier::external_type_specification]
#[verifier::external_body]
pub struct ExIoError(std::io::Error);

/// The kinds of I/O error that the library itself creates.
#[derive(Clone, Copy, Debug, PartialEq, Eq, Structural)]
pub enum IoErrorKind {
    NotFound,
    InvalidInput,
}

/// Calls `std::io::Error::new` with the given kind and message; nothing is
/// stated of the value, which is only carried inside a `BackupError`.
#[verifier::external_body]
pub(crate) fn new_io_error(kind: IoErrorKind, message: &str) -> std::io::Error {
    let kind = match kind {
        IoErrorKind::NotFound => std::io::ErrorKind::NotFound,
        IoErrorKind::InvalidInput => std::io::ErrorKind::InvalidInput,
    };
    std::io::Error::new(kind, message.to_string())
}

/// Why a backup, a path check or a schedule change failed.
#[derive(Debug)]
pub enum BackupError {
    /// The source folder does not exist.
    SourceNotFound(String),
    /// Source and destination are the same folder.
    SameFolder,
    /// A folder of the backup could not be created (or renamed into place).
    CreateDirFailed(std::io::Error),
    /// The destination lacks room: both figures in MiB, rounded down.
    InsufficientSpace { needed_mb: u64, available_mb: u64 },
    /// The user cancelled the copy.
    Cancelled,
    /// A file could not be copied.
    CopyFailed { from: String, to: String, source: std::io::Error },
    /// The Windows Task Scheduler refused the change.
    SchedulingFailed(String),
    /// A schedule time that is not of the form `HH:MM`.
    InvalidScheduleTime(String),
}

/// The result of a backup operation.
pub type BackupResult<T> = Result<T, BackupError>;

} // verus!
