use std::sync::atomic::{AtomicBool, Ordering};
use std::sync::mpsc;
use std::sync::Arc;

use autocopy::backup::BackupOrchestrator;
use autocopy::clock::LocalTime;
use autocopy::error::BackupError;
use autocopy::job::{
    total_file_bytes, BackupJob, BackupOptions, JobAction, JobEvent, ProgressEvent, WalkItem,
};

fn reading() -> LocalTime {
    LocalTime { year: 2024, month: 1, day: 2, hour: 10, minute: 0, second: 0 }
}

fn items() -> Vec<WalkItem> {
    vec![
        WalkItem { path: "/src".to_string(), is_file: false, size: Some(4096) },
        WalkItem { path: "/src/test.txt".to_string(), is_file: true, size: Some(11) },
        WalkItem { path: "/src/subdir".to_string(), is_file: false, size: Some(4096) },
        WalkItem { path: "/src/subdir/file.txt".to_string(), is_file: true, size: Some(7) },
        WalkItem { path: "/src/subdir/locked.txt".to_string(), is_file: true, size: None },
    ]
}

fn new_job(keep: Option<usize>) -> (BackupJob, mpsc::Receiver<ProgressEvent>, Arc<AtomicBool>) {
    let (tx, rx) = mpsc::channel();
    let flag = Arc::new(AtomicBool::new(false));
    let options = BackupOptions { cancel_flag: flag.clone(), progress_tx: tx };
    (BackupJob::new("/src".to_string(), "/dest".to_string(), options, keep), rx, flag)
}

/// Answers every request as a file system where everything works would,
/// recording what was asked.
fn drive(job: &mut BackupJob, log: &mut Vec<String>) {
    loop {
        let event = match job.action() {
            JobAction::ValidatePaths { source, dest } => {
                log.push(format!("validate {} {}", source, dest));
                JobEvent::Validated(Ok(()))
            }
            JobAction::ReadClock => JobEvent::Clock(reading()),
            JobAction::CheckCancel => JobEvent::CancelChecked(job.cancel_requested()),
            JobAction::Scan { source } => {
                log.push(format!("scan {}", source));
                JobEvent::Scanned(items())
            }
            JobAction::CreateDir { path } => {
                log.push(format!("mkdir {}", path));
                JobEvent::DirCreated(Ok(()))
            }
            JobAction::CreateParent { path } => {
                log.push(format!("parent {}", path));
                JobEvent::DirCreated(Ok(()))
            }
            JobAction::CopyFile { from, to } => {
                log.push(format!("copy {} {}", from, to));
                JobEvent::FileCopied(Ok(from.len() as u64))
            }
            JobAction::RemoveDir { path } => {
                log.push(format!("rmdir {}", path));
                JobEvent::Removed
            }
            JobAction::Rename { from, to } => {
                log.push(format!("rename {} {}", from, to));
                JobEvent::Renamed(Ok(()))
            }
            JobAction::Cleanup { dest, keep } => {
                log.push(format!("cleanup {} {}", dest, keep));
                JobEvent::CleanedUp
            }
            JobAction::Finish => return,
        };
        job.advance(event);
    }
}

#[test]
fn test_full_backup_flow() {
    let (mut job, rx, _flag) = new_job(None);
    let mut log = Vec::new();
    drive(&mut job, &mut log);
    let tmp = std::path::Path::new("/dest").join("backup_2024-01-02_10-00-00.tmp").to_string_lossy().into_owned();
    let fin = std::path::Path::new("/dest").join("backup_2024-01-02_10-00-00").to_string_lossy().into_owned();
    assert_eq!(tmp, "/dest/backup_2024-01-02_10-00-00.tmp");
    let expected = vec![
        "validate /src /dest".to_string(),
        "scan /src".to_string(),
        format!("mkdir {}", tmp),
        format!("parent {}/test.txt", tmp),
        format!("copy /src/test.txt {}/test.txt", tmp),
        format!("parent {}/subdir/file.txt", tmp),
        format!("copy /src/subdir/file.txt {}/subdir/file.txt", tmp),
        format!("parent {}/subdir/locked.txt", tmp),
        format!("copy /src/subdir/locked.txt {}/subdir/locked.txt", tmp),
        format!("rename {} {}", tmp, fin),
    ];
    assert_eq!(log, expected);
    assert_eq!(job.into_result().unwrap(), fin);
    let events: Vec<ProgressEvent> = rx.try_iter().collect();
    assert_eq!(events.len(), 8);
    assert!(matches!(events[0], ProgressEvent::Started { total_files: 3, total_bytes: 18 }));
    match &events[1] {
        ProgressEvent::FileStarted { path, index } => {
            assert_eq!(path, "test.txt");
            assert_eq!(*index, 0);
        }
        other => panic!("unexpected {:?}", other),
    }
    assert!(matches!(events[2], ProgressEvent::FileCompleted { bytes_copied: 13 }));
    match &events[5] {
        ProgressEvent::FileStarted { path, index } => {
            assert_eq!(path, "subdir/locked.txt");
            assert_eq!(*index, 2);
        }
        other => panic!("unexpected {:?}", other),
    }
    assert!(matches!(events[7], ProgressEvent::Finished));
}

#[test]
fn test_cleanup_after_backup() {
    let orchestrator = BackupOrchestrator::new();
    let (tx, _rx) = mpsc::channel();
    let mut job = orchestrator.run("/src".to_string(), "/dest".to_string(), 3, tx);
    let mut log = Vec::new();
    drive(&mut job, &mut log);
    assert_eq!(log.last().unwrap(), "cleanup /dest 3");
    assert!(job.into_result().is_ok());
}

#[test]
fn empty_source_is_renamed_at_once() {
    let (tx, rx) = mpsc::channel();
    let flag = Arc::new(AtomicBool::new(false));
    let options = BackupOptions { cancel_flag: flag, progress_tx: tx };
    let mut job = BackupJob::new("/src".to_string(), "/dest".to_string(), options, None);
    job.advance(JobEvent::Validated(Ok(())));
    job.advance(JobEvent::Clock(reading()));
    job.advance(JobEvent::CancelChecked(false));
    job.advance(JobEvent::Scanned(vec![]));
    job.advance(JobEvent::DirCreated(Ok(())));
    assert!(matches!(job.action(), JobAction::Rename { .. }));
    job.advance(JobEvent::Renamed(Ok(())));
    assert!(matches!(job.action(), JobAction::Finish));
    let events: Vec<ProgressEvent> = rx.try_iter().collect();
    assert!(matches!(events[0], ProgressEvent::Started { total_files: 0, total_bytes: 0 }));
    assert!(matches!(events[1], ProgressEvent::Finished));
}

#[test]
fn cancelled_before_the_walk() {
    let (mut job, rx, flag) = new_job(None);
    flag.store(true, Ordering::Relaxed);
    let mut log = Vec::new();
    drive(&mut job, &mut log);
    assert_eq!(log, vec!["validate /src /dest".to_string()]);
    assert!(matches!(job.into_result(), Err(BackupError::Cancelled)));
    assert_eq!(rx.try_iter().count(), 0);
}

#[test]
fn cancelled_between_files_removes_the_temporary_folder() {
    let (mut job, rx, flag) = new_job(Some(3));
    job.advance(JobEvent::Validated(Ok(())));
    job.advance(JobEvent::Clock(reading()));
    job.advance(JobEvent::CancelChecked(false));
    job.advance(JobEvent::Scanned(items()));
    job.advance(JobEvent::DirCreated(Ok(())));
    job.advance(JobEvent::CancelChecked(false));
    job.advance(JobEvent::DirCreated(Ok(())));
    job.advance(JobEvent::FileCopied(Ok(11)));
    flag.store(true, Ordering::Relaxed);
    assert!(job.cancel_requested());
    job.advance(JobEvent::CancelChecked(true));
    match job.action() {
        JobAction::RemoveDir { path } => assert_eq!(path, "/dest/backup_2024-01-02_10-00-00.tmp"),
        other => panic!("unexpected {:?}", other),
    }
    job.advance(JobEvent::Removed);
    assert!(matches!(job.into_result(), Err(BackupError::Cancelled)));
    let events: Vec<ProgressEvent> = rx.try_iter().collect();
    assert_eq!(events.len(), 3);
    assert!(!events.iter().any(|e| matches!(e, ProgressEvent::Finished)));
}

#[test]
fn validation_errors_end_the_job() {
    let (mut job, _rx, _flag) = new_job(None);
    job.advance(JobEvent::Validated(Err(BackupError::SameFolder)));
    assert!(matches!(job.action(), JobAction::Finish));
    assert!(matches!(job.into_result(), Err(BackupError::SameFolder)));
}

#[test]
fn a_failed_copy_names_both_files() {
    let (mut job, _rx, _flag) = new_job(None);
    job.advance(JobEvent::Validated(Ok(())));
    job.advance(JobEvent::Clock(reading()));
    job.advance(JobEvent::CancelChecked(false));
    job.advance(JobEvent::Scanned(items()));
    job.advance(JobEvent::DirCreated(Ok(())));
    job.advance(JobEvent::CancelChecked(false));
    job.advance(JobEvent::DirCreated(Ok(())));
    job.advance(JobEvent::FileCopied(Err(std::io::Error::new(std::io::ErrorKind::Other, "disk"))));
    match job.into_result() {
        Err(BackupError::CopyFailed { from, to, .. }) => {
            assert_eq!(from, "/src/test.txt");
            assert_eq!(to, "/dest/backup_2024-01-02_10-00-00.tmp/test.txt");
        }
        other => panic!("unexpected {:?}", other),
    }
}

#[test]
fn a_failed_temp_folder_is_a_folder_error() {
    let (mut job, _rx, _flag) = new_job(None);
    job.advance(JobEvent::Validated(Ok(())));
    job.advance(JobEvent::Clock(reading()));
    job.advance(JobEvent::CancelChecked(false));
    job.advance(JobEvent::Scanned(items()));
    job.advance(JobEvent::DirCreated(Err(std::io::Error::new(std::io::ErrorKind::Other, "denied"))));
    assert!(matches!(job.into_result(), Err(BackupError::CreateDirFailed(_))));
}

#[test]
fn a_file_outside_the_source_cannot_be_placed() {
    let (mut job, _rx, _flag) = new_job(None);
    job.advance(JobEvent::Validated(Ok(())));
    job.advance(JobEvent::Clock(reading()));
    job.advance(JobEvent::CancelChecked(false));
    job.advance(JobEvent::Scanned(vec![WalkItem {
        path: "/elsewhere/x.txt".to_string(),
        is_file: true,
        size: Some(1),
    }]));
    job.advance(JobEvent::DirCreated(Ok(())));
    job.advance(JobEvent::CancelChecked(false));
    match job.into_result() {
        Err(BackupError::CopyFailed { from, to, source }) => {
            assert_eq!(from, "/elsewhere/x.txt");
            assert_eq!(to, "/dest/backup_2024-01-02_10-00-00.tmp");
            assert_eq!(source.kind(), std::io::ErrorKind::InvalidInput);
        }
        other => panic!("unexpected {:?}", other),
    }
}

#[test]
fn a_failed_rename_removes_the_temporary_folder() {
    let (mut job, rx, _flag) = new_job(Some(3));
    job.advance(JobEvent::Validated(Ok(())));
    job.advance(JobEvent::Clock(reading()));
    job.advance(JobEvent::CancelChecked(false));
    job.advance(JobEvent::Scanned(vec![]));
    job.advance(JobEvent::DirCreated(Ok(())));
    job.advance(JobEvent::Renamed(Err(std::io::Error::new(std::io::ErrorKind::Other, "busy"))));
    assert!(matches!(job.action(), JobAction::RemoveDir { .. }));
    job.advance(JobEvent::Removed);
    assert!(matches!(job.into_result(), Err(BackupError::CreateDirFailed(_))));
    let events: Vec<ProgressEvent> = rx.try_iter().collect();
    assert_eq!(events.len(), 1);
    assert!(!events.iter().any(|e| matches!(e, ProgressEvent::Finished)));
}

#[test]
fn events_that_do_not_answer_change_nothing() {
    let (mut job, _rx, _flag) = new_job(None);
    job.advance(JobEvent::Removed);
    job.advance(JobEvent::CancelChecked(true));
    assert!(matches!(job.action(), JobAction::ValidatePaths { .. }));
}

#[test]
fn total_counts_files_with_known_sizes() {
    assert_eq!(total_file_bytes(&items()), 18);
    assert_eq!(total_file_bytes(&vec![]), 0);
}

#[test]
fn orchestrator_cancel_and_reset() {
    let orchestrator = BackupOrchestrator::new();
    assert!(!orchestrator.is_cancelled());
    orchestrator.cancel();
    assert!(orchestrator.is_cancelled());
    let (tx, _rx) = mpsc::channel();
    let job = orchestrator.run("/a".to_string(), "/b".to_string(), 5, tx);
    assert!(!orchestrator.is_cancelled());
    assert!(!job.cancel_requested());
    orchestrator.cancel();
    assert!(job.cancel_requested());
}

#[test]
fn the_clock_names_the_backup_folders() {
    let (mut job, _rx, _flag) = new_job(None);
    job.advance(JobEvent::Validated(Ok(())));
    assert!(matches!(job.action(), JobAction::ReadClock));
    job.read_clock();
    assert!(matches!(job.action(), JobAction::CheckCancel));
    let stamp = job.stamp.expect("the reading is kept");
    let name = format!(
        "backup_{:04}-{:02}-{:02}_{:02}-{:02}-{:02}",
        stamp.year, stamp.month, stamp.day, stamp.hour, stamp.minute, stamp.second
    );
    let expected = std::path::Path::new("/dest").join(&name).to_string_lossy().into_owned();
    assert_eq!(job.final_path, expected);
    assert_eq!(job.temp_path, format!("{}.tmp", expected));
}

#[test]
fn system_files_are_never_copied() {
    let (mut job, rx, _flag) = new_job(None);
    job.advance(JobEvent::Validated(Ok(())));
    job.advance(JobEvent::Clock(reading()));
    job.advance(JobEvent::CancelChecked(false));
    job.advance(JobEvent::Scanned(vec![
        WalkItem { path: "/src/a.txt".to_string(), is_file: true, size: Some(5) },
        WalkItem { path: "/src/Thumbs.db".to_string(), is_file: true, size: Some(100) },
        WalkItem { path: "/src/sub/DESKTOP.INI".to_string(), is_file: true, size: Some(7) },
    ]));
    assert_eq!(job.files, vec!["/src/a.txt".to_string()]);
    assert_eq!(job.total_bytes, 5);
    match rx.try_recv() {
        Ok(ProgressEvent::Started { total_files, total_bytes }) => {
            assert_eq!((total_files, total_bytes), (1, 5));
        }
        other => panic!("unexpected {:?}", other),
    }
}

#[test]
fn the_started_total_is_the_size_estimate() {
    let (mut job, rx, _flag) = new_job(None);
    job.advance(JobEvent::Validated(Ok(())));
    job.advance(JobEvent::Clock(reading()));
    job.advance(JobEvent::CancelChecked(false));
    job.advance(JobEvent::Scanned(items()));
    let estimate = total_file_bytes(&items());
    match rx.try_recv() {
        Ok(ProgressEvent::Started { total_bytes, .. }) => assert_eq!(total_bytes, estimate),
        other => panic!("unexpected {:?}", other),
    }
}
