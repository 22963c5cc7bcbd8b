//! What the window shows of a running backup, built from its progress events.
use vstd::prelude::*;
use crate::job::{BackupJob, JobStage, ProgressEvent};

verus! {

/// The progress of an active or completed backup.
#[derive(Clone, Debug)]
pub struct BackupProgress {
    pub total_files: usize,
    pub total_bytes: u64,
    /// The file being copied, relative to the source.
    pub current_file: String,
    /// The number of the file being copied, counting from 1.
    pub current_index: usize,
    pub bytes_copied: u64,
    pub started: bool,
    pub finished: bool,
}

/// Whether an event can be taken in without overflow.
pub open spec fn fits(p: BackupProgress, event: ProgressEvent) -> bool {
    match event {
        ProgressEvent::FileStarted { index, .. } => index < usize::MAX,
        ProgressEvent::FileCompleted { bytes_copied } => p.bytes_copied + bytes_copied <= u64::MAX,
        _ => true,
    }
}

/// The progress after taking in one event.
pub open spec fn applied(p: BackupProgress, event: ProgressEvent) -> BackupProgress {
    match event {
        ProgressEvent::Started { total_files, total_bytes } => BackupProgress {
            started: true,
            total_files,
            total_bytes,
            ..p
        },
        ProgressEvent::FileStarted { path, index } => BackupProgress {
            current_file: path,
            current_index: (index + 1) as usize,
            ..p
        },
        ProgressEvent::FileCompleted { bytes_copied } => BackupProgress {
            bytes_copied: (p.bytes_copied + bytes_copied) as u64,
            ..p
        },
        ProgressEvent::Finished => BackupProgress { finished: true, ..p },
    }
}

impl BackupProgress {
    /// No backup yet: nothing started, nothing counted.
    pub fn new() -> (r: Self)
        ensures
            r.total_files == 0,
            r.total_bytes == 0,
            r.current_file@.len() == 0,
            r.current_index == 0,
            r.bytes_copied == 0,
            !r.started,
            !r.finished,
    {
        BackupProgress {
            total_files: 0,
            total_bytes: 0,
            current_file: String::new(),
            current_index: 0,
            bytes_copied: 0,
            started: false,
            finished: false,
        }
    }

    /// Takes in one progress event; true when it is the one that finishes
    /// the backup.
    pub fn apply(&mut self, event: ProgressEvent) -> (just_finished: bool)
        requires
            fits(*old(self), event),
        ensures
            *final(self) == applied(*old(self), event),
            just_finished == (event is Finished),
    {
        match event {
            ProgressEvent::Started { total_files, total_bytes } => {
                self.started = true;
                self.total_files = total_files;
                self.total_bytes = total_bytes;
                false
            },
            ProgressEvent::FileStarted { path, index } => {
                self.current_file = path;
                self.current_index = index + 1;
                false
            },
            ProgressEvent::FileCompleted { bytes_copied } => {
                self.bytes_copied = self.bytes_copied + bytes_copied;
                false
            },
            ProgressEvent::Finished => {
                self.finished = true;
                true
            },
        }
    }
}

/// The progress after taking in a sequence of events, in order.
pub open spec fn applied_all(p: BackupProgress, events: Seq<ProgressEvent>) -> BackupProgress
    decreases events.len(),
{
    if events.len() == 0 {
        p
    } else {
        applied(applied_all(p, events.drop_last()), events.last())
    }
}

/// The bytes reported copied by a sequence of events.
pub open spec fn completed_bytes(events: Seq<ProgressEvent>) -> nat
    decreases events.len(),
{
    if events.len() == 0 {
        0
    } else {
        completed_bytes(events.drop_last()) + match events.last() {
            ProgressEvent::FileCompleted { bytes_copied } => bytes_copied as nat,
            _ => 0,
        }
    }
}

proof fn lemma_completed_prefix(events: Seq<ProgressEvent>, i: int)
    requires
        0 <= i <= events.len(),
    ensures
        completed_bytes(events.subrange(0, i)) <= completed_bytes(events),
    decreases events.len() - i,
{
    if i < events.len() {
        lemma_completed_prefix(events, i + 1);
        assert(events.subrange(0, i + 1).drop_last() =~= events.subrange(0, i));
    } else {
        assert(events.subrange(0, i) =~= events);
    }
}

proof fn lemma_progress_over_files(job: BackupJob, p0: BackupProgress, k: int)
    requires
        job.reports_files(k),
        p0.bytes_copied == 0,
        !p0.finished,
        completed_bytes(job.sent@) <= u64::MAX,
    ensures
        ({
            let p = applied_all(p0, job.sent@.subrange(0, 1 + 2 * k));
            &&& p.started
            &&& !p.finished
            &&& p.total_files == job.files.len()
            &&& p.total_bytes == job.total_bytes
            &&& k > 0 ==> p.current_index == k
            &&& p.bytes_copied == completed_bytes(job.sent@.subrange(0, 1 + 2 * k))
        }),
    decreases k,
{
    let s = job.sent@;
    if k == 0 {
        let first = s.subrange(0, 1);
        assert(first.drop_last() =~= Seq::<ProgressEvent>::empty());
        assert(first.last() == s[0]);
        assert(applied_all(p0, first) == applied(applied_all(p0, first.drop_last()), first.last()));
        assert(applied_all(p0, first.drop_last()) == p0);
        assert(completed_bytes(first) == completed_bytes(first.drop_last()));
    } else {
        assert(job.reports_files(k - 1));
        lemma_progress_over_files(job, p0, k - 1);
        let a = s.subrange(0, 1 + 2 * (k - 1));
        let b = s.subrange(0, 2 + 2 * (k - 1));
        let c = s.subrange(0, 1 + 2 * k);
        assert(b.drop_last() =~= a);
        assert(c.drop_last() =~= b);
        assert(b.last() == s[1 + 2 * (k - 1)]);
        assert(c.last() == s[2 + 2 * (k - 1)]);
        lemma_completed_prefix(s, 1 + 2 * k);
        assert(s[1 + 2 * (k - 1)] matches ProgressEvent::FileStarted { index, .. } && index == k - 1);
        let pa = applied_all(p0, a);
        let pb = applied_all(p0, b);
        let pc = applied_all(p0, c);
        assert(pb == applied(pa, b.last()));
        assert(pc == applied(pb, c.last()));
        assert(completed_bytes(b) == completed_bytes(a));
        assert(pb.current_index == k);
        assert(pb.bytes_copied == completed_bytes(b));
        assert(pc.current_index == k);
        assert(pc.bytes_copied == completed_bytes(c));
    }
}

/// The window's progress after it has taken in every event of a backup
/// that succeeded: started and finished, with the backup's number of files
/// and total size, at the last file when there were any, and with the
/// bytes of all completed files counted.
pub proof fn lemma_progress_of_successful_backup(job: BackupJob, p0: BackupProgress)
    requires
        job.wf(),
        job.stage matches JobStage::Done { result } && result is Ok,
        p0.bytes_copied == 0,
        !p0.finished,
        completed_bytes(job.sent@) <= u64::MAX,
    ensures
        ({
            let p = applied_all(p0, job.sent@);
            &&& p.started
            &&& p.finished
            &&& p.total_files == job.files.len()
            &&& p.total_bytes == job.total_bytes
            &&& job.files.len() > 0 ==> p.current_index == job.files.len()
            &&& p.bytes_copied == completed_bytes(job.sent@)
        }),
{
    let n = job.files.len() as int;
    let s = job.sent@;
    lemma_progress_over_files(job, p0, n);
    assert(s.drop_last() =~= s.subrange(0, 1 + 2 * n));
}

} // verus!
