//! Verified core of AutoCopy, a versioned backup tool.
pub mod text;
pub mod number;
pub mod paths;
pub mod error;
pub mod copy;
pub mod clock;
pub mod job;
pub mod backup;
pub mod progress;
pub mod version_manager;
pub mod config;
pub mod schedule;
pub mod format;
pub mod theme;
pub mod disks;
pub mod checks;
pub mod window;
