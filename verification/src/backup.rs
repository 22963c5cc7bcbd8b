//! Runs of a backup: each run clears the cancellation flag, backs up, and
//! afterwards keeps only the newest versions.
use vstd::prelude::*;
use std::sync::Arc;
use std::sync::atomic::{AtomicBool, Ordering};
use std::sync::mpsc::Sender;
use crate::job::{BackupJob, BackupOptions, ProgressEvent};

verus! {

/// Calls `Arc::clone`: the new handle shares the same flag.
#[verifier::external_body]
fn share_flag(flag: &Arc<AtomicBool>) -> (r: Arc<AtomicBool>)
    ensures
        r == *flag,
{
    flag.clone()
}

/// Starts backups and lets them be cancelled from another thread.
pub struct BackupOrchestrator {
    cancel_flag: Arc<AtomicBool>,
}

impl BackupOrchestrator {
    /// The flag that this orchestrator's runs check for cancellation.
    pub closed spec fn flag(&self) -> Arc<AtomicBool> {
        self.cancel_flag
    }

    /// An orchestrator whose flag is clear.
    pub fn new() -> Self {
        BackupOrchestrator { cancel_flag: Arc::new(AtomicBool::new(false)) }
    }

    /// Asks the current run to stop before its next file.
    pub fn cancel(&self) {
        self.cancel_flag.store(true, Ordering::Relaxed);
    }

    /// Whether cancellation has been asked for. Another thread may change
    /// the flag at any time, so nothing is stated of the value read.
    pub fn is_cancelled(&self) -> bool {
        self.cancel_flag.load(Ordering::Relaxed)
    }

    /// Starts a run: clears the flag and returns the job that backs up
    /// `source` into `dest`, reports to `progress_tx`, watches this
    /// orchestrator's flag and, once the backup succeeds, keeps only the
    /// newest `max_versions` versions.
    pub fn run(
        &self,
        source: String,
        dest: String,
        max_versions: usize,
        progress_tx: Sender<ProgressEvent>,
    ) -> (job: BackupJob)
        ensures
            job.wf(),
            job.stage is Validating,
            job.source == source,
            job.dest == dest,
            job.keep == Some(max_versions),
            job.options.cancel_flag == self.flag(),
            job.options.progress_tx == progress_tx,
            job.sent@.len() == 0,
    {
        self.cancel_flag.store(false, Ordering::Relaxed);
        let options = BackupOptions { cancel_flag: share_flag(&self.cancel_flag), progress_tx };
        BackupJob::new(source, dest, options, Some(max_versions))
    }
}

} // verus!
