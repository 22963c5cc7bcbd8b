//! A backup, step by step. The job decides; whoever drives it performs the
//! file-system work that each step asks for and reports how it went.
//!
//! A backup validates the paths, reads the clock to name the backup folder,
//! checks for cancellation, walks the source, writes every file into a
//! temporary `backup_<stamp>.tmp` folder (checking for cancellation before
//! each file), renames that folder to `backup_<stamp>` and, when the job
//! belongs to a run, removes the versions beyond the newest `keep`.
use vstd::prelude::*;
use crate::text::views;
use std::sync::Arc;
use std::sync::atomic::{AtomicBool, Ordering};
use std::sync::mpsc::Sender;
use crate::clock::{local_now, stamp_text, LocalTime};
use crate::text::ends_with_spec;
use crate::copy::{
    backup_folder_name, backup_folder_name_spec, is_skip_entry, is_skip_path, is_version_name,
    temp_folder_name, temp_folder_name_spec,
};
use crate::error::{new_io_error, BackupError, BackupResult, IoErrorKind};
use crate::paths::{join, joined, strip_prefix, stripped};

verus! {

/// `std::sync::mpsc::Sender`, the channel end progress events are sent on.
#[verifier::external_type_specification]
#[verifier::external_body]
#[verifier::reject_recursive_types(T)]
pub struct ExSender<T>(Sender<T>);

/// What a backup reports while it runs.
#[derive(Debug, Clone)]
pub enum ProgressEvent {
    /// The source has been walked: this many files, this many bytes in all.
    Started { total_files: usize, total_bytes: u64 },
    /// The file at `path` (relative to the source), number `index` from 0, is being copied.
    FileStarted { path: String, index: usize },
    /// The current file has been copied; it held this many bytes.
    FileCompleted { bytes_copied: u64 },
    /// The backup folder is complete.
    Finished,
}

/// The shared cancellation flag and the channel for progress events.
pub struct BackupOptions {
    pub cancel_flag: Arc<AtomicBool>,
    pub progress_tx: Sender<ProgressEvent>,
}

/// Calls `Sender::send`; a backup goes on when no one listens, so the
/// outcome is dropped and nothing is stated.
#[verifier::external_body]
fn send_event(tx: &Sender<ProgressEvent>, event: ProgressEvent) {
    let _ = tx.send(event);
}

/// One entry met while walking the source: its path, whether it is a plain
/// file, and its size when its metadata could be read.
pub struct WalkItem {
    pub path: String,
    pub is_file: bool,
    pub size: Option<u64>,
}

/// The bytes a walked entry adds to the total: its size, for a file whose
/// size is known.
pub open spec fn item_bytes(item: WalkItem) -> nat {
    if item.is_file {
        match item.size {
            Some(s) => s as nat,
            None => 0,
        }
    } else {
        0
    }
}

/// The total size of the files among the walked entries.
pub open spec fn file_bytes(items: Seq<WalkItem>) -> nat
    decreases items.len(),
{
    if items.len() == 0 {
        0
    } else {
        file_bytes(items.drop_last()) + item_bytes(items.last())
    }
}

/// Whether a walked entry is copied: a plain file whose name is not one
/// of the skipped names.
pub open spec fn is_planned(item: WalkItem) -> bool {
    item.is_file && !is_skip_path(item.path@)
}

/// The paths of the files a backup copies, in walk order.
pub open spec fn file_paths(items: Seq<WalkItem>) -> Seq<Seq<char>>
    decreases items.len(),
{
    if items.len() == 0 {
        Seq::empty()
    } else if is_planned(items.last()) {
        file_paths(items.drop_last()).push(items.last().path@)
    } else {
        file_paths(items.drop_last())
    }
}

/// The total size of the files a backup copies.
pub open spec fn planned_bytes(items: Seq<WalkItem>) -> nat
    decreases items.len(),
{
    if items.len() == 0 {
        0
    } else if is_planned(items.last()) {
        planned_bytes(items.drop_last()) + item_bytes(items.last())
    } else {
        planned_bytes(items.drop_last())
    }
}

proof fn lemma_planned_paths_not_skipped(items: Seq<WalkItem>)
    ensures
        forall|k: int| 0 <= k < file_paths(items).len() ==> !is_skip_path(#[trigger] file_paths(items)[k]),
    decreases items.len(),
{
    if items.len() > 0 {
        let prev = file_paths(items.drop_last());
        lemma_planned_paths_not_skipped(items.drop_last());
        assert forall|k: int| 0 <= k < file_paths(items).len() implies !is_skip_path(
            #[trigger] file_paths(items)[k],
        ) by {
            if k < prev.len() {
                assert(file_paths(items)[k] == prev[k]);
            }
        }
    }
}

/// A backup plans exactly the walked entries that are plain files with a
/// name that is not skipped, in walk order and whatever their size (empty
/// files included): its files are those entries' paths, so it reports as
/// many files as there are such entries, and its total is the total size
/// of those entries.
pub proof fn lemma_plan_is_every_copied_entry(items: Seq<WalkItem>)
    ensures
        file_paths(items) == items.filter(|i: WalkItem| i.is_file && !is_skip_path(i.path@)).map_values(|i: WalkItem| i.path@),
        planned_bytes(items) == file_bytes(items.filter(|i: WalkItem| i.is_file && !is_skip_path(i.path@))),
    decreases items.len(),
{
    reveal(Seq::filter);
    let pred = |i: WalkItem| i.is_file && !is_skip_path(i.path@);
    if items.len() == 0 {
        assert(items.filter(pred) =~= Seq::<WalkItem>::empty());
        assert(file_paths(items) =~= items.filter(pred).map_values(|i: WalkItem| i.path@));
    } else {
        let prev = items.drop_last();
        lemma_plan_is_every_copied_entry(prev);
        let fp = prev.filter(pred);
        assert(items.filter(pred) == if pred(items.last()) {
            fp.push(items.last())
        } else {
            fp
        });
        if items.last().is_file && !is_skip_path(items.last().path@) {
            assert(items.filter(pred).drop_last() =~= fp);
            assert(file_paths(items) =~= items.filter(pred).map_values(|i: WalkItem| i.path@));
        } else {
            assert(file_paths(items) =~= items.filter(pred).map_values(|i: WalkItem| i.path@));
        }
    }
}

proof fn lemma_planned_bytes_bounded(items: Seq<WalkItem>)
    ensures
        planned_bytes(items) <= file_bytes(items),
    decreases items.len(),
{
    if items.len() > 0 {
        lemma_planned_bytes_bounded(items.drop_last());
    }
}

/// On a walk that already left out the skipped names (as the walk of a
/// backup does), the total a backup reports at its start is the size
/// estimate of its source: every walked file is copied, and its size counted.
pub proof fn lemma_estimate_is_started_total(items: Seq<WalkItem>)
    requires
        forall|k: int| 0 <= k < items.len() ==> !is_skip_path(#[trigger] items[k].path@),
    ensures
        planned_bytes(items) == file_bytes(items),
    decreases items.len(),
{
    if items.len() > 0 {
        let prev = items.drop_last();
        assert forall|k: int| 0 <= k < prev.len() implies !is_skip_path(#[trigger] prev[k].path@) by {
            assert(prev[k] == items[k]);
        }
        assert(!is_skip_path(items[items.len() - 1].path@));
        lemma_estimate_is_started_total(prev);
    }
}

proof fn lemma_file_bytes_prefix(items: Seq<WalkItem>, i: int)
    requires
        0 <= i <= items.len(),
    ensures
        file_bytes(items.subrange(0, i)) <= file_bytes(items),
    decreases items.len() - i,
{
    if i < items.len() {
        lemma_file_bytes_prefix(items, i + 1);
        assert(items.subrange(0, i + 1).drop_last() =~= items.subrange(0, i));
    } else {
        assert(items.subrange(0, i) =~= items);
    }
}

/// The total size of the files among the walked entries (the size estimate
/// of a source folder).
pub fn total_file_bytes(items: &Vec<WalkItem>) -> (r: u64)
    requires
        file_bytes(items@) <= u64::MAX,
    ensures
        r == file_bytes(items@),
{
    let mut total: u64 = 0;
    let mut i: usize = 0;
    while i < items.len()
        invariant
            i <= items.len(),
            file_bytes(items@) <= u64::MAX,
            total == file_bytes(items@.subrange(0, i as int)),
        decreases items.len() - i,
    {
        proof {
            lemma_file_bytes_prefix(items@, i + 1);
            assert(items@.subrange(0, i + 1).drop_last() =~= items@.subrange(0, i as int));
        }
        if items[i].is_file {
            match items[i].size {
                Some(s) => {
                    total = total + s;
                },
                None => {},
            }
        }
        i = i + 1;
    }
    assert(items@.subrange(0, items.len() as int) =~= items@);
    total
}

/// The files a backup copies, in walk order, and their total size.
pub fn plan_files(items: &Vec<WalkItem>) -> (r: (Vec<String>, u64))
    requires
        file_bytes(items@) <= u64::MAX,
    ensures
        views(r.0@) == file_paths(items@),
        r.1 == planned_bytes(items@),
{
    let mut files: Vec<String> = Vec::new();
    let mut total: u64 = 0;
    let mut i: usize = 0;
    assert(items@.subrange(0, 0) =~= Seq::<WalkItem>::empty());
    assert(views(files@) =~= Seq::<Seq<char>>::empty());
    while i < items.len()
        invariant
            i <= items.len(),
            file_bytes(items@) <= u64::MAX,
            views(files@) == file_paths(items@.subrange(0, i as int)),
            total == planned_bytes(items@.subrange(0, i as int)),
        decreases items.len() - i,
    {
        let ghost prefix = items@.subrange(0, i + 1);
        proof {
            assert(prefix.drop_last() =~= items@.subrange(0, i as int));
            lemma_file_bytes_prefix(items@, i + 1);
            lemma_planned_bytes_bounded(prefix);
        }
        if items[i].is_file && !is_skip_entry(items[i].path.as_str()) {
            let ghost before = views(files@);
            files.push(items[i].path.clone());
            assert(views(files@) =~= before.push(items@[i as int].path@));
            match items[i].size {
                Some(n) => {
                    total = total + n;
                },
                None => {},
            }
        }
        i = i + 1;
    }
    assert(items@.subrange(0, items.len() as int) =~= items@);
    (files, total)
}

/// Where a backup job stands.
pub enum JobStage {
    /// The paths are to be checked.
    Validating,
    /// The clock is to be read, to name the backup folder.
    ReadingClock,
    /// Cancellation is to be checked before the source is walked.
    CheckingBeforeScan,
    /// The source is to be walked.
    Scanning,
    /// The temporary backup folder is to be created.
    CreatingTemp,
    /// Cancellation is to be checked before file number `index` is copied.
    CheckingCancel { index: usize },
    /// The folder that will hold file number `index` is to be created.
    CreatingParent { index: usize, relative: String, target: String },
    /// File number `index` is to be copied to `target`.
    Copying { index: usize, relative: String, target: String },
    /// The temporary folder is to be removed, after a cancellation.
    RemovingAfterCancel,
    /// The temporary folder is to be renamed to the backup folder.
    Renaming,
    /// The temporary folder is to be removed, after the rename failed.
    RemovingAfterRename { error: std::io::Error },
    /// The versions beyond the newest `keep` are to be removed.
    CleaningUp,
    /// The backup is over, with this result.
    Done { result: BackupResult<String> },
    /// The result has been handed out.
    Taken,
}

/// The work a job asks its driver to do next.
#[derive(Debug)]
pub enum JobAction {
    /// Check the source and destination paths (`validate_paths`).
    ValidatePaths { source: String, dest: String },
    /// Read the local clock.
    ReadClock,
    /// Read the cancellation flag (`BackupJob::cancel_requested`).
    CheckCancel,
    /// Walk the source, leaving out skipped entries and everything below them.
    Scan { source: String },
    /// Create the folder `path` and any missing parents.
    CreateDir { path: String },
    /// Create the parent folder of `path`, if it has one.
    CreateParent { path: String },
    /// Read the size of `from` (0 when it cannot be read), then copy it to `to`.
    CopyFile { from: String, to: String },
    /// Remove the folder `path` with its contents; the outcome does not matter.
    RemoveDir { path: String },
    /// Rename the folder `from` to `to`.
    Rename { from: String, to: String },
    /// Remove the versions in `dest` beyond the newest `keep`; the outcome does not matter.
    Cleanup { dest: String, keep: usize },
    /// Nothing: the result is ready (`BackupJob::into_result`).
    Finish,
}

/// How the work a job asked for went.
pub enum JobEvent {
    Validated(BackupResult<()>),
    Clock(LocalTime),
    CancelChecked(bool),
    Scanned(Vec<WalkItem>),
    DirCreated(Result<(), std::io::Error>),
    FileCopied(Result<u64, std::io::Error>),
    Removed,
    Renamed(Result<(), std::io::Error>),
    CleanedUp,
}

/// A backup of `source` into `dest`, taken one step at a time.
pub struct BackupJob {
    pub source: String,
    pub dest: String,
    /// For a run, the number of versions to keep afterwards.
    pub keep: Option<usize>,
    pub options: BackupOptions,
    /// The clock reading that names the backup, once read.
    pub stamp: Option<LocalTime>,
    pub temp_path: String,
    pub final_path: String,
    /// The files to copy, in walk order, once walked.
    pub files: Vec<String>,
    pub total_bytes: u64,
    pub stage: JobStage,
    /// The progress events sent so far.
    pub sent: Ghost<Seq<ProgressEvent>>,
    /// Whether the temporary folder has taken the final name `backup_<stamp>`.
    pub renamed: Ghost<bool>,
}

/// No event of `s` reports the finish.
pub open spec fn no_finish(s: Seq<ProgressEvent>) -> bool {
    forall|k: int| 0 <= k < s.len() ==> !(#[trigger] s[k] is Finished)
}

/// Whether an event answers the work that a stage asked for.
pub open spec fn answers(stage: JobStage, event: JobEvent) -> bool {
    match stage {
        JobStage::Validating => event is Validated,
        JobStage::ReadingClock => event is Clock,
        JobStage::CheckingBeforeScan => event is CancelChecked,
        JobStage::CheckingCancel { .. } => event is CancelChecked,
        JobStage::Scanning => event is Scanned,
        JobStage::CreatingTemp => event is DirCreated,
        JobStage::CreatingParent { .. } => event is DirCreated,
        JobStage::Copying { .. } => event is FileCopied,
        JobStage::RemovingAfterCancel => event is Removed,
        JobStage::RemovingAfterRename { .. } => event is Removed,
        JobStage::Renaming => event is Renamed,
        JobStage::CleaningUp => event is CleanedUp,
        JobStage::Done { .. } => false,
        JobStage::Taken => false,
    }
}

/// Stages reached only after the clock was read.
pub open spec fn is_stamped_stage(stage: JobStage) -> bool {
    match stage {
        JobStage::Validating => false,
        JobStage::ReadingClock => false,
        JobStage::Done { .. } => false,
        JobStage::Taken => false,
        _ => true,
    }
}

impl BackupJob {
    /// The backup folders are named after the clock reading: the temporary
    /// one `backup_<stamp>.tmp`, the final one `backup_<stamp>`, both in `dest`.
    pub open spec fn named_after(self, t: LocalTime) -> bool {
        &&& self.temp_path@ == joined(self.dest@, temp_folder_name_spec(stamp_text(t)))
        &&& self.final_path@ == joined(self.dest@, backup_folder_name_spec(stamp_text(t)))
    }

    /// The progress reported so far covers the first `count` files: the
    /// start with the number of files and their total size, then, for each
    /// file in walk order, its path relative to the source with its number,
    /// and its completion.
    pub open spec fn reports_files(self, count: int) -> bool {
        &&& 0 <= count <= self.files.len()
        &&& self.sent@.len() >= 1 + 2 * count
        &&& self.sent@[0] == (ProgressEvent::Started {
            total_files: self.files.len(),
            total_bytes: self.total_bytes,
        })
        &&& forall|k: int|
            0 <= k < count ==> (#[trigger] self.sent@[1 + 2 * k] matches ProgressEvent::FileStarted {
                path,
                index,
            } && index == k && stripped(self.files@[k]@, self.source@) == Some(path@))
                && self.sent@[2 + 2 * k] is FileCompleted
    }

    /// What has been reported in each stage.
    pub open spec fn history(self) -> bool {
        match self.stage {
            JobStage::Validating => self.sent@.len() == 0,
            JobStage::ReadingClock => self.sent@.len() == 0,
            JobStage::CheckingBeforeScan => self.sent@.len() == 0,
            JobStage::Scanning => self.sent@.len() == 0,
            JobStage::CreatingTemp => self.sent@.len() == 1 && self.reports_files(0),
            JobStage::CheckingCancel { index } => self.sent@.len() == 1 + 2 * index
                && self.reports_files(index as int),
            JobStage::CreatingParent { index, .. } => self.sent@.len() == 1 + 2 * index
                && self.reports_files(index as int),
            JobStage::Copying { index, relative, .. } => {
                &&& self.sent@.len() == 2 + 2 * index
                &&& self.reports_files(index as int)
                &&& self.sent@.last() == (ProgressEvent::FileStarted { path: relative, index })
            },
            JobStage::Renaming => self.sent@.len() == 1 + 2 * self.files.len()
                && self.reports_files(self.files.len() as int),
            JobStage::RemovingAfterRename { .. } => self.sent@.len() == 1 + 2 * self.files.len()
                && self.reports_files(self.files.len() as int),
            JobStage::RemovingAfterCancel => no_finish(self.sent@),
            JobStage::CleaningUp => self.finished_reporting(),
            JobStage::Done { result } => {
                &&& result is Ok ==> (self.finished_reporting() && result == Ok::<String, BackupError>(
                    self.final_path,
                ))
                &&& result is Err ==> no_finish(self.sent@)
            },
            _ => true,
        }
    }

    /// Before the backup folder takes its final name, the finish has not
    /// been reported.
    proof fn lemma_unfinished_reports(self)
        requires
            self.history(),
        ensures
            match self.stage {
                JobStage::CleaningUp => true,
                JobStage::Done { .. } => true,
                JobStage::Taken => true,
                _ => no_finish(self.sent@),
            },
    {
        let count: int = match self.stage {
            JobStage::CheckingCancel { index } => index as int,
            JobStage::CreatingParent { index, .. } => index as int,
            JobStage::Copying { index, .. } => index as int,
            JobStage::Renaming => self.files.len() as int,
            JobStage::RemovingAfterRename { .. } => self.files.len() as int,
            _ => 0,
        };
        match self.stage {
            JobStage::CreatingTemp | JobStage::CheckingCancel { .. } | JobStage::CreatingParent { .. }
            | JobStage::Copying { .. } | JobStage::Renaming | JobStage::RemovingAfterRename { .. } => {
                assert forall|k: int| 0 <= k < self.sent@.len() implies !(#[trigger] self.sent@[k] is Finished) by {
                    if k > 0 && k < 1 + 2 * count {
                        let j = (k - 1) / 2;
                        if k == 1 + 2 * j {
                            assert(self.sent@[1 + 2 * j] is FileStarted);
                        } else {
                            assert(self.sent@[1 + 2 * j] is FileStarted);
                            assert(k == 2 + 2 * j);
                        }
                    }
                }
            },
            _ => {},
        }
    }

    /// Every file was reported, in order, and then the finish.
    pub open spec fn finished_reporting(self) -> bool {
        &&& self.sent@.len() == 2 + 2 * self.files.len()
        &&& self.reports_files(self.files.len() as int)
        &&& self.sent@.last() == ProgressEvent::Finished
        &&& self.stamp is Some
    }

    /// The job's invariant.
    pub open spec fn wf(self) -> bool {
        &&& self.history()
        &&& self.renamed@ == match self.stage {
            JobStage::CleaningUp => true,
            JobStage::Done { result } => result is Ok,
            _ => false,
        }
        &&& forall|k: int| 0 <= k < self.files.len() ==> !is_skip_path(#[trigger] self.files@[k]@)
        &&& (is_stamped_stage(self.stage) ==> self.stamp is Some)
        &&& (self.stamp matches Some(t) ==> self.named_after(t))
        &&& match self.stage {
            JobStage::CheckingCancel { index } => index < self.files.len(),
            JobStage::CreatingParent { index, relative, target } => {
                &&& index < self.files.len()
                &&& stripped(self.files@[index as int]@, self.source@) == Some(relative@)
                &&& target@ == joined(self.temp_path@, relative@)
            },
            JobStage::Copying { index, relative, target } => {
                &&& index < self.files.len()
                &&& stripped(self.files@[index as int]@, self.source@) == Some(relative@)
                &&& target@ == joined(self.temp_path@, relative@)
            },
            JobStage::CleaningUp => self.keep is Some,
            JobStage::Taken => false,
            _ => true,
        }
    }

    /// The work the job asks for in its present stage.
    pub open spec fn requested(self) -> JobAction {
        match self.stage {
            JobStage::Validating => JobAction::ValidatePaths { source: self.source, dest: self.dest },
            JobStage::ReadingClock => JobAction::ReadClock,
            JobStage::CheckingBeforeScan => JobAction::CheckCancel,
            JobStage::CheckingCancel { .. } => JobAction::CheckCancel,
            JobStage::Scanning => JobAction::Scan { source: self.source },
            JobStage::CreatingTemp => JobAction::CreateDir { path: self.temp_path },
            JobStage::CreatingParent { target, .. } => JobAction::CreateParent { path: target },
            JobStage::Copying { index, target, .. } => JobAction::CopyFile {
                from: self.files@[index as int],
                to: target,
            },
            JobStage::RemovingAfterCancel => JobAction::RemoveDir { path: self.temp_path },
            JobStage::RemovingAfterRename { .. } => JobAction::RemoveDir { path: self.temp_path },
            JobStage::Renaming => JobAction::Rename { from: self.temp_path, to: self.final_path },
            JobStage::CleaningUp => JobAction::Cleanup { dest: self.dest, keep: self.keep->0 },
            JobStage::Done { .. } => JobAction::Finish,
            JobStage::Taken => JobAction::Finish,
        }
    }

    /// A job that backs up `source` into `dest`; `keep` is the number of
    /// versions a run keeps afterwards, `None` for a plain backup.
    pub fn new(source: String, dest: String, options: BackupOptions, keep: Option<usize>) -> (r: Self)
        ensures
            r.wf(),
            r.source == source,
            r.dest == dest,
            r.keep == keep,
            r.options == options,
            r.stage is Validating,
            r.stamp is None,
            r.files@.len() == 0,
            r.sent@ == Seq::<ProgressEvent>::empty(),
            !r.renamed@,
    {
        BackupJob {
            source,
            dest,
            keep,
            options,
            stamp: None,
            temp_path: String::new(),
            final_path: String::new(),
            files: Vec::new(),
            total_bytes: 0,
            stage: JobStage::Validating,
            sent: Ghost(Seq::empty()),
            renamed: Ghost(false),
        }
    }

    /// Reads the cancellation flag. Another thread may set it at any time,
    /// so nothing is stated of the value read.
    pub fn cancel_requested(&self) -> bool {
        self.options.cancel_flag.load(Ordering::Relaxed)
    }

    /// The work the job asks for now.
    pub fn action(&self) -> (r: JobAction)
        requires
            self.wf(),
        ensures
            r == self.requested(),
    {
        match &self.stage {
            JobStage::Validating => JobAction::ValidatePaths {
                source: self.source.clone(),
                dest: self.dest.clone(),
            },
            JobStage::ReadingClock => JobAction::ReadClock,
            JobStage::CheckingBeforeScan => JobAction::CheckCancel,
            JobStage::CheckingCancel { .. } => JobAction::CheckCancel,
            JobStage::Scanning => JobAction::Scan { source: self.source.clone() },
            JobStage::CreatingTemp => JobAction::CreateDir { path: self.temp_path.clone() },
            JobStage::CreatingParent { target, .. } => JobAction::CreateParent { path: target.clone() },
            JobStage::Copying { index, target, .. } => JobAction::CopyFile {
                from: self.files[*index].clone(),
                to: target.clone(),
            },
            JobStage::RemovingAfterCancel => JobAction::RemoveDir { path: self.temp_path.clone() },
            JobStage::RemovingAfterRename { .. } => JobAction::RemoveDir {
                path: self.temp_path.clone(),
            },
            JobStage::Renaming => JobAction::Rename {
                from: self.temp_path.clone(),
                to: self.final_path.clone(),
            },
            JobStage::CleaningUp => {
                let keep = match self.keep {
                    Some(k) => k,
                    None => 0,
                };
                JobAction::Cleanup { dest: self.dest.clone(), keep }
            },
            JobStage::Done { .. } => JobAction::Finish,
            JobStage::Taken => JobAction::Finish,
        }
    }

    /// Answers a job that asks for the clock: reads the local clock and moves
    /// the job on with the reading, after which the backup folders are named.
    pub fn read_clock(&mut self)
        requires
            old(self).wf(),
            old(self).stage is ReadingClock,
        ensures
            final(self).wf(),
            final(self).source == old(self).source,
            final(self).dest == old(self).dest,
            final(self).keep == old(self).keep,
            final(self).options == old(self).options,
            final(self).stage is CheckingBeforeScan,
            final(self).sent == old(self).sent,
            final(self).stamp matches Some(t) && t.valid() && final(self).named_after(t),
    {
        let t = local_now();
        self.advance(JobEvent::Clock(t));
    }

    /// The result of a finished job.
    pub fn into_result(self) -> (r: BackupResult<String>)
        requires
            self.stage is Done,
        ensures
            self.stage matches JobStage::Done { result } && r == result,
    {
        match self.stage {
            JobStage::Done { result } => result,
            _ => Err(BackupError::Cancelled),
        }
    }

    /// Takes in how the requested work went and moves the job on, sending
    /// the progress events that the step brings. An event that does not
    /// answer the present stage changes nothing.
    pub fn advance(&mut self, event: JobEvent)
        requires
            old(self).wf(),
            event matches JobEvent::Scanned(items) ==> file_bytes(items@) <= u64::MAX,
        ensures
            final(self).wf(),
            final(self).source == old(self).source,
            final(self).dest == old(self).dest,
            final(self).keep == old(self).keep,
            final(self).options == old(self).options,
            final(self).renamed@ == (old(self).renamed@ || (old(self).stage is Renaming
                && event matches JobEvent::Renamed(Ok(())))),
            !answers(old(self).stage, event) ==> *final(self) == *old(self),
            // the paths were checked
            old(self).stage is Validating ==> match event {
                JobEvent::Validated(Ok(())) => final(self).stage is ReadingClock
                    && final(self).sent == old(self).sent,
                JobEvent::Validated(Err(e)) => final(self).stage == (JobStage::Done {
                    result: Err(e),
                }) && final(self).sent == old(self).sent,
                _ => true,
            },
            // the clock was read: the backup folders are named after it
            old(self).stage is ReadingClock ==> match event {
                JobEvent::Clock(t) => final(self).stage is CheckingBeforeScan
                    && final(self).stamp == Some(t) && final(self).named_after(t)
                    && final(self).sent == old(self).sent,
                _ => true,
            },
            // the flag was read before the walk
            old(self).stage is CheckingBeforeScan ==> match event {
                JobEvent::CancelChecked(true) => final(self).stage == (JobStage::Done {
                    result: Err(BackupError::Cancelled),
                }) && final(self).sent == old(self).sent,
                JobEvent::CancelChecked(false) => final(self).stage is Scanning
                    && final(self).sent == old(self).sent,
                _ => true,
            },
            // the source was walked: its files are the plan, and the start is reported
            old(self).stage is Scanning ==> match event {
                JobEvent::Scanned(items) => {
                    &&& final(self).stage is CreatingTemp
                    &&& views(final(self).files@) == file_paths(items@)
                    &&& final(self).total_bytes == planned_bytes(items@)
                    &&& final(self).sent@ == old(self).sent@.push(
                        ProgressEvent::Started {
                            total_files: final(self).files.len(),
                            total_bytes: final(self).total_bytes,
                        },
                    )
                },
                _ => true,
            },
            // the temporary folder was created, or not
            old(self).stage is CreatingTemp ==> match event {
                JobEvent::DirCreated(Ok(())) => {
                    &&& final(self).files == old(self).files
                    &&& (old(self).files.len() == 0 ==> final(self).stage is Renaming)
                    &&& (old(self).files.len() > 0 ==> final(self).stage == (JobStage::CheckingCancel { index: 0 }))
                    &&& final(self).sent == old(self).sent
                },
                JobEvent::DirCreated(Err(e)) => final(self).stage == (JobStage::Done {
                    result: Err(BackupError::CreateDirFailed(e)),
                }) && final(self).sent == old(self).sent,
                _ => true,
            },
            // the flag was read before a file
            match old(self).stage {
                JobStage::CheckingCancel { index } => match event {
                JobEvent::CancelChecked(true) => final(self).stage is RemovingAfterCancel
                    && final(self).sent == old(self).sent,
                JobEvent::CancelChecked(false) => {
                    &&& final(self).files == old(self).files
                    &&& final(self).sent == old(self).sent
                    &&& match stripped(old(self).files@[index as int]@, old(self).source@) {
                        Some(rel) => final(self).stage matches JobStage::CreatingParent {
                            index: i,
                            relative,
                            target,
                        } && i == index && relative@ == rel && target@ == joined(
                            old(self).temp_path@,
                            rel,
                        ),
                        None => final(self).stage matches JobStage::Done {
                            result: Err(BackupError::CopyFailed { from, to, .. }),
                        } && from == old(self).files@[index as int] && to == old(self).temp_path,
                    }
                },
                _ => true,
            },
                _ => true,
            },
            // the folder for a file was created: the file is reported and copied next
            match old(self).stage {
                JobStage::CreatingParent { index, relative, target } => match event {
                JobEvent::DirCreated(Ok(())) => {
                    &&& final(self).stage == (JobStage::Copying { index, relative, target })
                    &&& final(self).files == old(self).files
                    &&& final(self).sent@ == old(self).sent@.push(
                        ProgressEvent::FileStarted { path: relative, index },
                    )
                },
                JobEvent::DirCreated(Err(e)) => final(self).stage == (JobStage::Done {
                    result: Err(BackupError::CreateDirFailed(e)),
                }) && final(self).sent == old(self).sent,
                _ => true,
            },
                _ => true,
            },
            // a file was copied: it is reported, and the next file (or the rename) follows
            match old(self).stage {
                JobStage::Copying { index, target, .. } => match event {
                JobEvent::FileCopied(Ok(bytes)) => {
                    &&& final(self).files == old(self).files
                    &&& final(self).sent@ == old(self).sent@.push(
                        ProgressEvent::FileCompleted { bytes_copied: bytes },
                    )
                    &&& (index + 1 < old(self).files.len() ==> final(self).stage == (
                    JobStage::CheckingCancel { index: (index + 1) as usize }))
                    &&& (index + 1 == old(self).files.len() ==> final(self).stage is Renaming)
                },
                JobEvent::FileCopied(Err(e)) => final(self).stage == (JobStage::Done {
                    result: Err(
                        BackupError::CopyFailed {
                            from: old(self).files@[index as int],
                            to: target,
                            source: e,
                        },
                    ),
                }) && final(self).sent == old(self).sent,
                _ => true,
            },
                _ => true,
            },
            // a cancelled backup leaves no temporary folder behind
            old(self).stage is RemovingAfterCancel && event is Removed ==> final(self).stage == (
            JobStage::Done { result: Err(BackupError::Cancelled) }) && final(self).sent
                == old(self).sent,
            // the backup folder took its final name, or the temporary one is removed
            old(self).stage is Renaming ==> match event {
                JobEvent::Renamed(Ok(())) => {
                    &&& final(self).sent@ == old(self).sent@.push(ProgressEvent::Finished)
                    &&& (old(self).keep is Some ==> final(self).stage is CleaningUp)
                    &&& (old(self).keep is None ==> final(self).stage == (JobStage::Done {
                        result: Ok(old(self).final_path),
                    }))
                },
                JobEvent::Renamed(Err(e)) => final(self).stage == (JobStage::RemovingAfterRename {
                    error: e,
                }) && final(self).sent == old(self).sent,
                _ => true,
            },
            match old(self).stage {
                JobStage::RemovingAfterRename { error } => event is Removed ==> final(self).stage
                    == (JobStage::Done { result: Err(BackupError::CreateDirFailed(error)) })
                    && final(self).sent == old(self).sent,
                _ => true,
            },
            // after the cleanup, the backup's result is its folder
            old(self).stage is CleaningUp && event is CleanedUp ==> final(self).stage == (
            JobStage::Done { result: Ok(old(self).final_path) }) && final(self).sent
                == old(self).sent,
    {
        proof {
            self.lemma_unfinished_reports();
        }
        let mut stage = JobStage::Taken;
        std::mem::swap(&mut stage, &mut self.stage);
        match stage {
            JobStage::Validating => match event {
                JobEvent::Validated(Ok(())) => {
                    self.stage = JobStage::ReadingClock;
                },
                JobEvent::Validated(Err(e)) => {
                    self.stage = JobStage::Done { result: Err(e) };
                },
                _ => {
                    self.stage = JobStage::Validating;
                },
            },
            JobStage::ReadingClock => match event {
                JobEvent::Clock(t) => {
                    let stamp = t.backup_stamp();
                    let temp_name = temp_folder_name(stamp.as_str());
                    let final_name = backup_folder_name(stamp.as_str());
                    self.temp_path = join(self.dest.as_str(), temp_name.as_str());
                    self.final_path = join(self.dest.as_str(), final_name.as_str());
                    self.stamp = Some(t);
                    self.stage = JobStage::CheckingBeforeScan;
                },
                _ => {
                    self.stage = JobStage::ReadingClock;
                },
            },
            JobStage::CheckingBeforeScan => match event {
                JobEvent::CancelChecked(cancelled) => {
                    if cancelled {
                        self.stage = JobStage::Done { result: Err(BackupError::Cancelled) };
                    } else {
                        self.stage = JobStage::Scanning;
                    }
                },
                _ => {
                    self.stage = JobStage::CheckingBeforeScan;
                },
            },
            JobStage::Scanning => match event {
                JobEvent::Scanned(items) => {
                    let (files, total) = plan_files(&items);
                    proof {
                        lemma_planned_paths_not_skipped(items@);
                        assert forall|k: int| 0 <= k < files.len() implies !is_skip_path(
                            #[trigger] files@[k]@,
                        ) by {
                            assert(views(files@)[k] == files@[k]@);
                            assert(file_paths(items@)[k] == files@[k]@);
                        }
                    }
                    self.files = files;
                    self.total_bytes = total;
                    let n = self.files.len();
                    self.emit(ProgressEvent::Started { total_files: n, total_bytes: total });
                    self.stage = JobStage::CreatingTemp;
                },
                _ => {
                    self.stage = JobStage::Scanning;
                },
            },
            JobStage::CreatingTemp => match event {
                JobEvent::DirCreated(Ok(())) => {
                    if self.files.len() == 0 {
                        self.stage = JobStage::Renaming;
                    } else {
                        self.stage = JobStage::CheckingCancel { index: 0 };
                    }
                },
                JobEvent::DirCreated(Err(e)) => {
                    self.stage = JobStage::Done { result: Err(BackupError::CreateDirFailed(e)) };
                },
                _ => {
                    self.stage = JobStage::CreatingTemp;
                },
            },
            JobStage::CheckingCancel { index } => match event {
                JobEvent::CancelChecked(cancelled) => {
                    if cancelled {
                        self.stage = JobStage::RemovingAfterCancel;
                    } else {
                        match strip_prefix(self.files[index].as_str(), self.source.as_str()) {
                            Some(relative) => {
                                let target = join(self.temp_path.as_str(), relative.as_str());
                                self.stage = JobStage::CreatingParent { index, relative, target };
                            },
                            None => {
                                let error = new_io_error(
                                    IoErrorKind::InvalidInput,
                                    "Failed to compute relative path",
                                );
                                self.stage = JobStage::Done {
                                    result: Err(
                                        BackupError::CopyFailed {
                                            from: self.files[index].clone(),
                                            to: self.temp_path.clone(),
                                            source: error,
                                        },
                                    ),
                                };
                            },
                        }
                    }
                },
                _ => {
                    self.stage = JobStage::CheckingCancel { index };
                },
            },
            JobStage::CreatingParent { index, relative, target } => match event {
                JobEvent::DirCreated(Ok(())) => {
                    self.emit(ProgressEvent::FileStarted { path: relative.clone(), index });
                    self.stage = JobStage::Copying { index, relative, target };
                },
                JobEvent::DirCreated(Err(e)) => {
                    self.stage = JobStage::Done { result: Err(BackupError::CreateDirFailed(e)) };
                },
                _ => {
                    self.stage = JobStage::CreatingParent { index, relative, target };
                },
            },
            JobStage::Copying { index, relative, target } => match event {
                JobEvent::FileCopied(Ok(bytes)) => {
                    self.emit(ProgressEvent::FileCompleted { bytes_copied: bytes });
                    if index + 1 < self.files.len() {
                        self.stage = JobStage::CheckingCancel { index: index + 1 };
                    } else {
                        self.stage = JobStage::Renaming;
                    }
                },
                JobEvent::FileCopied(Err(e)) => {
                    self.stage = JobStage::Done {
                        result: Err(
                            BackupError::CopyFailed {
                                from: self.files[index].clone(),
                                to: target,
                                source: e,
                            },
                        ),
                    };
                },
                _ => {
                    self.stage = JobStage::Copying { index, relative, target };
                },
            },
            JobStage::RemovingAfterCancel => match event {
                JobEvent::Removed => {
                    self.stage = JobStage::Done { result: Err(BackupError::Cancelled) };
                },
                _ => {
                    self.stage = JobStage::RemovingAfterCancel;
                },
            },
            JobStage::Renaming => match event {
                JobEvent::Renamed(Ok(())) => {
                    self.emit(ProgressEvent::Finished);
                    self.renamed = Ghost(true);
                    if self.keep.is_some() {
                        self.stage = JobStage::CleaningUp;
                    } else {
                        self.stage = JobStage::Done { result: Ok(self.final_path.clone()) };
                    }
                },
                JobEvent::Renamed(Err(e)) => {
                    self.stage = JobStage::RemovingAfterRename { error: e };
                },
                _ => {
                    self.stage = JobStage::Renaming;
                },
            },
            JobStage::RemovingAfterRename { error } => match event {
                JobEvent::Removed => {
                    self.stage = JobStage::Done {
                        result: Err(BackupError::CreateDirFailed(error)),
                    };
                },
                _ => {
                    self.stage = JobStage::RemovingAfterRename { error };
                },
            },
            JobStage::CleaningUp => match event {
                JobEvent::CleanedUp => {
                    self.stage = JobStage::Done { result: Ok(self.final_path.clone()) };
                },
                _ => {
                    self.stage = JobStage::CleaningUp;
                },
            },
            JobStage::Done { result } => {
                self.stage = JobStage::Done { result };
            },
            JobStage::Taken => {
                self.stage = JobStage::Taken;
            },
        }
    }

    fn emit(&mut self, event: ProgressEvent)
        ensures
            final(self).sent@ == old(self).sent@.push(event),
            final(self).source == old(self).source,
            final(self).dest == old(self).dest,
            final(self).keep == old(self).keep,
            final(self).options == old(self).options,
            final(self).stamp == old(self).stamp,
            final(self).temp_path == old(self).temp_path,
            final(self).final_path == old(self).final_path,
            final(self).files == old(self).files,
            final(self).total_bytes == old(self).total_bytes,
            final(self).stage == old(self).stage,
            final(self).renamed == old(self).renamed,
    {
        let ghost recorded = event;
        send_event(&self.options.progress_tx, event);
        self.sent = Ghost(self.sent@.push(recorded));
    }
}

/// A stamp ends in a digit, so never in `.tmp`.
pub proof fn lemma_stamp_not_temp(t: LocalTime)
    ensures
        !ends_with_spec(stamp_text(t), ".tmp"@),
{
    reveal_strlit(".tmp");
    let s = stamp_text(t);
    let sec = crate::clock::fixed_digits(t.second as nat, 2);
    assert(sec.last() == crate::number::digit_char((t.second as nat) % 10));
    assert(s.last() == sec.last());
    if ends_with_spec(s, ".tmp"@) {
        assert(s.subrange(s.len() - 4, s.len() as int)[3] == s.last());
    }
}

/// A backup that succeeds hands back `dest/backup_<stamp>`, named after
/// the clock reading it took, a name that lists as a version; and by then it
/// has reported the start, every file in walk order with its completion,
/// and the finish.
pub proof fn lemma_successful_backup(job: BackupJob)
    requires
        job.wf(),
        job.stage matches JobStage::Done { result } && result is Ok,
    ensures
        job.stage matches JobStage::Done { result } && result == Ok::<String, BackupError>(job.final_path),
        job.stamp matches Some(t) && job.final_path@ == joined(job.dest@, backup_folder_name_spec(stamp_text(t)))
            && is_version_name(backup_folder_name_spec(stamp_text(t))),
        job.finished_reporting(),
        job.sent@[0] == (ProgressEvent::Started { total_files: job.files.len(), total_bytes: job.total_bytes }),
        job.sent@.last() == ProgressEvent::Finished,
{
    let t = job.stamp->0;
    lemma_stamp_not_temp(t);
    crate::copy::lemma_version_names(stamp_text(t));
}

/// A backup that fails or is cancelled never reports the finish: the
/// finish, which the window answers with its "completed" notice, is
/// reported only by a backup whose folder took its final name.
pub proof fn lemma_failed_backup_reports_no_finish(job: BackupJob, k: int)
    requires
        job.wf(),
        job.stage matches JobStage::Done { result } && result is Err,
        0 <= k < job.sent@.len(),
    ensures
        !(job.sent@[k] is Finished),
{
}

/// A backup never copies a file with one of the skipped names
/// (`Thumbs.db`, `desktop.ini`, `.DS_Store`, `Icon\r`): none of the files
/// it plans, and so none it asks to copy, ends in such a name.
pub proof fn lemma_skipped_files_are_not_copied(job: BackupJob, k: int)
    requires
        job.wf(),
        0 <= k < job.files.len(),
    ensures
        !is_skip_path(job.files@[k]@),
{
}

/// A backup that fails or is cancelled adds no version and removes none:
/// its temporary folder never took the final name `backup_<stamp>` (the
/// rename is the only step that makes a version), and the removal of old
/// versions, which is asked for only after that rename, was never asked for.
pub proof fn lemma_failed_backup_makes_no_version(job: BackupJob)
    requires
        job.wf(),
        job.stage matches JobStage::Done { result } && result is Err,
    ensures
        !job.renamed@,
{
}

/// The removal of old versions is asked for only once the backup's folder
/// has taken its final name.
pub proof fn lemma_cleanup_only_after_rename(job: BackupJob)
    requires
        job.wf(),
        job.requested() is Cleanup,
    ensures
        job.renamed@,
{
}

} // verus!
