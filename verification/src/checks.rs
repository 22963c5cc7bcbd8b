//! The checks of source and destination made before a backup.
use vstd::prelude::*;
use crate::error::{new_io_error, BackupError, BackupResult, IoErrorKind};
use crate::paths::{path_eq, same_path};
use crate::copy::{check_space, MIB};
use crate::text::str_eq;

verus! {

/// The first check: the source must exist, and the destination must not be
/// the same path (or the same text) as the source.
pub fn check_distinct_paths(source: &str, dest: &str, source_exists: bool) -> (r: BackupResult<()>)
    ensures
        !source_exists ==> (r matches Err(BackupError::SourceNotFound(s)) && s@ == source@),
        source_exists && (same_path(source@, dest@) || source@ == dest@) ==> (r matches Err(
            BackupError::SameFolder,
        )),
        source_exists && !same_path(source@, dest@) && source@ != dest@ ==> r is Ok,
{
    if !source_exists {
        return Err(BackupError::SourceNotFound(source.to_owned()));
    }
    if path_eq(source, dest) || str_eq(source, dest) {
        return Err(BackupError::SameFolder);
    }
    Ok(())
}

/// The second check, on the canonical forms of both folders: a source that
/// cannot be resolved is not found, a destination that cannot be resolved
/// is an error creating it, and two folders that resolve to the same path
/// are the same folder.
pub fn check_canonical(source: &str, source_canonical: Option<String>, dest_canonical: Option<String>) -> (r: BackupResult<()>)
    ensures
        source_canonical is None ==> (r matches Err(BackupError::SourceNotFound(s)) && s@ == source@),
        source_canonical is Some && dest_canonical is None ==> r matches Err(BackupError::CreateDirFailed(_)),
        match (source_canonical, dest_canonical) {
            (Some(a), Some(b)) => if same_path(a@, b@) {
                r matches Err(BackupError::SameFolder)
            } else {
                r is Ok
            },
            _ => true,
        },
{
    let a = match source_canonical {
        Some(a) => a,
        None => return Err(BackupError::SourceNotFound(source.to_owned())),
    };
    let b = match dest_canonical {
        Some(b) => b,
        None => return Err(
            BackupError::CreateDirFailed(new_io_error(IoErrorKind::NotFound, "Destination not found")),
        ),
    };
    if path_eq(a.as_str(), b.as_str()) {
        return Err(BackupError::SameFolder);
    }
    Ok(())
}

/// Where the checks before a backup stand. They run in this order, and the
/// first that fails decides the error.
pub enum CheckStage {
    /// Whether the source exists is to be read.
    SourceExistence,
    /// Both folders are to be resolved to their canonical paths.
    Resolving,
    /// The destination is to be created, if it is missing.
    PreparingDest,
    /// The size of the source and the free space for the destination are to be measured.
    Measuring,
    /// The checks are over, with this result.
    Done { result: BackupResult<()> },
}

/// The reading or work the checks ask their driver for next.
#[derive(Debug)]
pub enum CheckAction {
    /// Read whether `source` exists.
    ReadSourceExists { source: String },
    /// Resolve both folders to their canonical paths (`None` where that fails).
    Resolve { source: String, dest: String },
    /// Create `dest` and its missing parents, if `dest` does not exist.
    EnsureDest { dest: String },
    /// Estimate the size of `source` and read the free space for `dest`.
    Measure { source: String, dest: String },
    /// Nothing: the result is ready (`PathCheck::into_result`).
    Finish,
}

/// What the driver read or did.
pub enum CheckEvent {
    SourceExists(bool),
    Resolved { source: Option<String>, dest: Option<String> },
    DestEnsured(Result<(), std::io::Error>),
    Measured { estimated: u64, available: u64 },
}

/// The checks that a backup of `source` into `dest` may start, one step at
/// a time: the source exists, the two folders differ by path and by
/// canonical path, the destination exists (it is created if missing), and
/// the source fits in the free space.
pub struct PathCheck {
    pub source: String,
    pub dest: String,
    pub stage: CheckStage,
}

/// Whether an event answers what a stage asked for.
pub open spec fn check_answers(stage: CheckStage, event: CheckEvent) -> bool {
    match stage {
        CheckStage::SourceExistence => event is SourceExists,
        CheckStage::Resolving => event is Resolved,
        CheckStage::PreparingDest => event is DestEnsured,
        CheckStage::Measuring => event is Measured,
        CheckStage::Done { .. } => false,
    }
}

impl PathCheck {
    /// The checks of a backup of `source` into `dest`, none made yet.
    pub fn new(source: String, dest: String) -> (r: Self)
        ensures
            r.source == source,
            r.dest == dest,
            r.stage is SourceExistence,
    {
        PathCheck { source, dest, stage: CheckStage::SourceExistence }
    }

    /// What the checks ask for in their present stage.
    pub open spec fn requested(self) -> CheckAction {
        match self.stage {
            CheckStage::SourceExistence => CheckAction::ReadSourceExists { source: self.source },
            CheckStage::Resolving => CheckAction::Resolve { source: self.source, dest: self.dest },
            CheckStage::PreparingDest => CheckAction::EnsureDest { dest: self.dest },
            CheckStage::Measuring => CheckAction::Measure { source: self.source, dest: self.dest },
            CheckStage::Done { .. } => CheckAction::Finish,
        }
    }

    /// What the checks ask for now.
    pub fn action(&self) -> (r: CheckAction)
        ensures
            r == self.requested(),
    {
        match &self.stage {
            CheckStage::SourceExistence => CheckAction::ReadSourceExists { source: self.source.clone() },
            CheckStage::Resolving => CheckAction::Resolve {
                source: self.source.clone(),
                dest: self.dest.clone(),
            },
            CheckStage::PreparingDest => CheckAction::EnsureDest { dest: self.dest.clone() },
            CheckStage::Measuring => CheckAction::Measure {
                source: self.source.clone(),
                dest: self.dest.clone(),
            },
            CheckStage::Done { .. } => CheckAction::Finish,
        }
    }

    /// Takes in what was read or done and moves on to the next check, or to
    /// the result. An event that does not answer the present stage changes
    /// nothing.
    pub fn advance(&mut self, event: CheckEvent)
        ensures
            final(self).source == old(self).source,
            final(self).dest == old(self).dest,
            !check_answers(old(self).stage, event) ==> *final(self) == *old(self),
            // the source must exist, and differ from the destination by path and by text
            old(self).stage is SourceExistence ==> match event {
                CheckEvent::SourceExists(exists) => {
                    &&& !exists ==> (final(self).stage matches CheckStage::Done {
                        result: Err(BackupError::SourceNotFound(s)),
                    } && s@ == old(self).source@)
                    &&& exists && (same_path(old(self).source@, old(self).dest@) || old(self).source@
                        == old(self).dest@) ==> (final(self).stage matches CheckStage::Done {
                        result: Err(BackupError::SameFolder),
                    })
                    &&& exists && !same_path(old(self).source@, old(self).dest@) && old(self).source@
                        != old(self).dest@ ==> final(self).stage is Resolving
                },
                _ => true,
            },
            // both must resolve, to different canonical paths
            old(self).stage is Resolving ==> match event {
                CheckEvent::Resolved { source: a, dest: b } => {
                    &&& a is None ==> (final(self).stage matches CheckStage::Done {
                        result: Err(BackupError::SourceNotFound(s)),
                    } && s@ == old(self).source@)
                    &&& a is Some && b is None ==> (final(self).stage matches CheckStage::Done {
                        result: Err(BackupError::CreateDirFailed(_)),
                    })
                    &&& match (a, b) {
                        (Some(x), Some(y)) => if same_path(x@, y@) {
                            final(self).stage matches CheckStage::Done { result: Err(BackupError::SameFolder) }
                        } else {
                            final(self).stage is PreparingDest
                        },
                        _ => true,
                    }
                },
                _ => true,
            },
            // the destination must exist, or be created
            old(self).stage is PreparingDest ==> match event {
                CheckEvent::DestEnsured(Ok(())) => final(self).stage is Measuring,
                CheckEvent::DestEnsured(Err(e)) => final(self).stage == (CheckStage::Done {
                    result: Err(BackupError::CreateDirFailed(e)),
                }),
                _ => true,
            },
            // the source must fit
            old(self).stage is Measuring ==> match event {
                CheckEvent::Measured { estimated, available } => {
                    &&& estimated <= available ==> final(self).stage == (CheckStage::Done { result: Ok(()) })
                    &&& estimated > available ==> (final(self).stage matches CheckStage::Done {
                        result: Err(BackupError::InsufficientSpace { needed_mb, available_mb }),
                    } && needed_mb == estimated / MIB && available_mb == available / MIB)
                },
                _ => true,
            },
    {
        let mut stage = CheckStage::Done { result: Ok(()) };
        std::mem::swap(&mut stage, &mut self.stage);
        match stage {
            CheckStage::SourceExistence => match event {
                CheckEvent::SourceExists(exists) => {
                    match check_distinct_paths(self.source.as_str(), self.dest.as_str(), exists) {
                        Ok(()) => {
                            self.stage = CheckStage::Resolving;
                        },
                        Err(e) => {
                            self.stage = CheckStage::Done { result: Err(e) };
                        },
                    }
                },
                _ => {
                    self.stage = CheckStage::SourceExistence;
                },
            },
            CheckStage::Resolving => match event {
                CheckEvent::Resolved { source: a, dest: b } => {
                    match check_canonical(self.source.as_str(), a, b) {
                        Ok(()) => {
                            self.stage = CheckStage::PreparingDest;
                        },
                        Err(e) => {
                            self.stage = CheckStage::Done { result: Err(e) };
                        },
                    }
                },
                _ => {
                    self.stage = CheckStage::Resolving;
                },
            },
            CheckStage::PreparingDest => match event {
                CheckEvent::DestEnsured(Ok(())) => {
                    self.stage = CheckStage::Measuring;
                },
                CheckEvent::DestEnsured(Err(e)) => {
                    self.stage = CheckStage::Done { result: Err(BackupError::CreateDirFailed(e)) };
                },
                _ => {
                    self.stage = CheckStage::PreparingDest;
                },
            },
            CheckStage::Measuring => match event {
                CheckEvent::Measured { estimated, available } => {
                    match check_space(estimated, available) {
                        Ok(()) => {
                            self.stage = CheckStage::Done { result: Ok(()) };
                        },
                        Err(e) => {
                            self.stage = CheckStage::Done { result: Err(e) };
                        },
                    }
                },
                _ => {
                    self.stage = CheckStage::Measuring;
                },
            },
            CheckStage::Done { result } => {
                self.stage = CheckStage::Done { result };
            },
        }
    }

    /// The result of checks that are over.
    pub fn into_result(self) -> (r: BackupResult<()>)
        requires
            self.stage is Done,
        ensures
            self.stage matches CheckStage::Done { result } && r == result,
    {
        match self.stage {
            CheckStage::Done { result } => result,
            _ => Ok(()),
        }
    }
}

} // verus!
