use autocopy::clock::LocalTime;
use autocopy::copy::{
    backup_folder_name, check_space, is_skip_entry, is_skip_file_name, is_version_folder_name,
    select_versions, temp_folder_name, versions_to_delete, DirEntry, VersionFolder,
};
use autocopy::error::BackupError;

fn dir(path: &str) -> DirEntry {
    DirEntry { path: path.to_string(), is_dir: true }
}

#[test]
fn skip_names_ignore_ascii_case() {
    assert!(is_skip_file_name("Thumbs.db"));
    assert!(is_skip_file_name("THUMBS.DB"));
    assert!(is_skip_file_name("Desktop.INI"));
    assert!(is_skip_file_name(".ds_store"));
    assert!(is_skip_file_name("Icon\r"));
    assert!(!is_skip_file_name("Icon"));
    assert!(!is_skip_file_name("Thumbs.db.bak"));
    assert!(!is_skip_file_name("document.txt"));
}

#[test]
fn skip_entries_look_at_the_last_component() {
    assert!(is_skip_entry("/home/user/photos/thumbs.db"));
    assert!(is_skip_entry(".DS_Store"));
    assert!(!is_skip_entry("/home/user/Thumbs.db/other.txt"));
    assert!(!is_skip_entry("/home/user/.."));
    assert!(!is_skip_entry(""));
}

#[test]
fn backup_folder_names() {
    assert_eq!(backup_folder_name("2024-06-03_14-30-00"), "backup_2024-06-03_14-30-00");
    assert_eq!(temp_folder_name("2024-06-03_14-30-00"), "backup_2024-06-03_14-30-00.tmp");
    assert!(is_version_folder_name("backup_2024-06-03_14-30-00"));
    assert!(!is_version_folder_name("backup_2024-06-03_14-30-00.tmp"));
    assert!(!is_version_folder_name("other_folder"));
    assert!(!is_version_folder_name("Backup_2024"));
    assert!(is_version_folder_name("backup_"));
}

#[test]
fn stamps_name_the_backup_folder() {
    let t = LocalTime { year: 2024, month: 6, day: 3, hour: 9, minute: 5, second: 7 };
    let stamp = t.backup_stamp();
    assert_eq!(stamp, "2024-06-03_09-05-07");
    assert_eq!(t.day_stamp(), "2024-06-03");
    assert_eq!(t.minute_stamp(), "09:05");
    assert!(is_version_folder_name(&backup_folder_name(&stamp)));
    assert!(!is_version_folder_name(&temp_folder_name(&stamp)));
}

#[test]
fn stamps_of_unusual_years() {
    let early = LocalTime { year: 7, month: 1, day: 1, hour: 0, minute: 0, second: 0 };
    assert_eq!(early.backup_stamp(), "0007-01-01_00-00-00");
    let late = LocalTime { year: 12345, month: 12, day: 31, hour: 23, minute: 59, second: 59 };
    assert_eq!(late.backup_stamp(), "+12345-12-31_23-59-59");
    let before = LocalTime { year: -44, month: 3, day: 15, hour: 12, minute: 0, second: 0 };
    assert_eq!(before.backup_stamp(), "-0044-03-15_12-00-00");
}

#[test]
fn later_stamps_sort_later() {
    let a = LocalTime { year: 2023, month: 12, day: 31, hour: 23, minute: 59, second: 59 };
    let b = LocalTime { year: 2024, month: 1, day: 1, hour: 0, minute: 0, second: 0 };
    assert!(a.backup_stamp() < b.backup_stamp());
}

#[test]
fn test_list_versions_ignores_non_matching() {
    let entries = vec![
        dir("/dest/backup_2024-01-01_10-00-00"),
        dir("/dest/other_folder"),
        dir("/dest/backup_2024-01-02_10-00-00"),
        dir("/dest/not_a_backup"),
    ];
    let versions = select_versions(&entries);
    assert_eq!(versions.len(), 2);
    assert!(versions[0].path.contains("2024-01-02"));
    assert!(versions[1].path.contains("2024-01-01"));
}

#[test]
fn listing_skips_files_and_unfinished_backups() {
    let entries = vec![
        DirEntry { path: "/dest/backup_2024-01-03_10-00-00".to_string(), is_dir: false },
        dir("/dest/backup_2024-01-04_10-00-00.tmp"),
        dir("/dest/backup_2024-01-01_10-00-00"),
        dir("/dest/backup_2024-01-05_10-00-00"),
        dir("/dest/backup_2024-01-02_10-00-00"),
    ];
    let versions = select_versions(&entries);
    let names: Vec<&str> = versions.iter().map(|v| v.name.as_str()).collect();
    assert_eq!(
        names,
        vec!["backup_2024-01-05_10-00-00", "backup_2024-01-02_10-00-00", "backup_2024-01-01_10-00-00"]
    );
    assert_eq!(versions[0].path, "/dest/backup_2024-01-05_10-00-00");
}

fn folders(n: usize) -> Vec<VersionFolder> {
    (0..n)
        .map(|i| {
            let name = format!("backup_2024-01-0{}_10-00-00", n - i);
            VersionFolder { path: format!("/dest/{}", name), name }
        })
        .collect()
}

#[test]
fn test_cleanup_old_versions_keeps_only_n() {
    let versions = folders(5);
    let doomed = versions_to_delete(&versions, 3);
    assert_eq!(doomed.len(), 2);
    assert_eq!(doomed[0], "/dest/backup_2024-01-02_10-00-00");
    assert_eq!(doomed[1], "/dest/backup_2024-01-01_10-00-00");
}

#[test]
fn cleanup_with_few_versions_removes_none() {
    assert!(versions_to_delete(&folders(3), 3).is_empty());
    assert!(versions_to_delete(&folders(2), 10).is_empty());
    assert_eq!(versions_to_delete(&folders(2), 0).len(), 2);
}

#[test]
fn space_check_reports_mebibytes() {
    assert!(check_space(100, 100).is_ok());
    assert!(check_space(0, 0).is_ok());
    match check_space(5 * 1048576 + 10, 3 * 1048576 + 999) {
        Err(BackupError::InsufficientSpace { needed_mb, available_mb }) => {
            assert_eq!(needed_mb, 5);
            assert_eq!(available_mb, 3);
        }
        other => panic!("unexpected {:?}", other),
    }
}

#[test]
fn test_cleanup_removes_old_versions() {
    let entries: Vec<DirEntry> = (0..5)
        .map(|i| dir(&format!("/dest/backup_2024-01-0{}_10-00-00", i + 1)))
        .collect();
    let versions = select_versions(&entries);
    let doomed = versions_to_delete(&versions, 3);
    assert_eq!(doomed.len(), 2);
    let left: Vec<&VersionFolder> = versions.iter().filter(|v| !doomed.contains(&v.path)).collect();
    assert_eq!(left.len(), 3);
}
