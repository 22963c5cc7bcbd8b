use autocopy::checks::{check_canonical, check_distinct_paths, CheckAction, CheckEvent, CheckStage, PathCheck};
use autocopy::disks::{available_space_for, get_available_space, DiskSpace};
use autocopy::error::BackupError;
use autocopy::format::format_size;
use autocopy::job::ProgressEvent;
use autocopy::number::{parse_u32, to_decimal};
use autocopy::progress::BackupProgress;
use autocopy::text::{contains, ends_with, eq_ignore_ascii_case, starts_with, str_lt};
use autocopy::theme::{AppTheme, Rgb};
use autocopy::version_manager::{sort_versions, SortOrder, VersionEntry, VersionManager};
use autocopy::window::{
    backup_request, expired_notices, field_validity, space_reading_fresh, status_text, take_dropped_folders,
};

#[test]
fn sizes_read_like_the_float_formatting() {
    assert_eq!(format_size(0), "0 KB");
    assert_eq!(format_size(1023), "0 KB");
    assert_eq!(format_size(2048), "2 KB");
    assert_eq!(format_size(1048575), "1023 KB");
    assert_eq!(format_size(1048576), "1.0 MB");
    assert_eq!(format_size(1610612736), "1.5 GB");
    let gib = 1073741824.0f64;
    let mib = 1048576.0f64;
    let samples: [u64; 12] = [
        1048576 + 52428, 1048576 + 52429, 5 * 1048576 + 524288, 2 * 1048576 + 1572864,
        1073741824, 1073741824 + 53687091, 1073741824 + 268435456, 1342177280,
        3 * 1073741824 + 1, u64::MAX, (1u64 << 53) + 1, 123456789012345,
    ];
    for b in samples {
        let expected = if b >= 1073741824 {
            format!("{:.1} GB", b as f64 / gib)
        } else {
            format!("{:.1} MB", b as f64 / mib)
        };
        assert_eq!(format_size(b), expected, "bytes {}", b);
    }
}

#[test]
fn numbers_read_and_write() {
    assert_eq!(parse_u32("42"), Some(42));
    assert_eq!(parse_u32("+7"), Some(7));
    assert_eq!(parse_u32("007"), Some(7));
    assert_eq!(parse_u32("4294967295"), Some(4294967295));
    assert_eq!(parse_u32("4294967296"), None);
    assert_eq!(parse_u32(""), None);
    assert_eq!(parse_u32("+"), None);
    assert_eq!(parse_u32("-1"), None);
    assert_eq!(parse_u32(" 1"), None);
    assert_eq!(to_decimal(0), "0");
    assert_eq!(to_decimal(18446744073709551615), "18446744073709551615");
}

#[test]
fn text_operations() {
    assert!(eq_ignore_ascii_case("Backup", "bACKUP"));
    assert!(!eq_ignore_ascii_case("Backup", "Backups"));
    assert!(!eq_ignore_ascii_case("é", "É"));
    assert!(starts_with("backup_1", "backup_"));
    assert!(ends_with("x.tmp", ".tmp"));
    assert!(!ends_with("tmp", ".tmp"));
    assert!(contains("ERROR: cannot find it", "cannot find"));
    assert!(contains("abc", ""));
    assert!(!contains("abc", "abcd"));
    assert!(str_lt("backup_2024-01-01", "backup_2024-01-02"));
    assert!(!str_lt("b", "b"));
    assert!(str_lt("", "a"));
}

#[test]
fn progress_follows_the_events() {
    let mut p = BackupProgress::new();
    assert!(!p.apply(ProgressEvent::Started { total_files: 2, total_bytes: 30 }));
    assert!(p.started && p.total_files == 2 && p.total_bytes == 30);
    assert!(!p.apply(ProgressEvent::FileStarted { path: "a.txt".to_string(), index: 0 }));
    assert_eq!(p.current_file, "a.txt");
    assert_eq!(p.current_index, 1);
    assert!(!p.apply(ProgressEvent::FileCompleted { bytes_copied: 10 }));
    assert!(!p.apply(ProgressEvent::FileStarted { path: "b.txt".to_string(), index: 1 }));
    assert!(!p.apply(ProgressEvent::FileCompleted { bytes_copied: 20 }));
    assert_eq!(p.bytes_copied, 30);
    assert_eq!(p.current_index, 2);
    assert!(p.apply(ProgressEvent::Finished));
    assert!(p.finished);
}

fn entry(name: &str, size: u64) -> VersionEntry {
    VersionEntry { path: format!("/dest/{}", name), name: name.to_string(), size }
}

fn names(v: &[VersionEntry]) -> Vec<&str> {
    v.iter().map(|e| e.name.as_str()).collect()
}

#[test]
fn versions_sort_three_ways() {
    let found = vec![
        entry("backup_2024-01-02_10-00-00", 5),
        entry("backup_2024-01-03_10-00-00", 9),
        entry("backup_2024-01-01_10-00-00", 9),
    ];
    let newest = sort_versions(&found, SortOrder::Newest);
    assert_eq!(names(&newest), vec!["backup_2024-01-03_10-00-00", "backup_2024-01-02_10-00-00", "backup_2024-01-01_10-00-00"]);
    let oldest = sort_versions(&found, SortOrder::Oldest);
    assert_eq!(names(&oldest), vec!["backup_2024-01-01_10-00-00", "backup_2024-01-02_10-00-00", "backup_2024-01-03_10-00-00"]);
    let largest = sort_versions(&found, SortOrder::Largest);
    assert_eq!(names(&largest), vec!["backup_2024-01-03_10-00-00", "backup_2024-01-01_10-00-00", "backup_2024-01-02_10-00-00"]);
}

#[test]
fn version_manager_lists_and_filters() {
    let mut mgr = VersionManager::new();
    assert!(mgr.versions.is_empty());
    assert_eq!(mgr.sort_order, SortOrder::Newest);
    mgr.refresh(vec![entry("backup_2024-01-01_10-00-00", 0)]);
    assert!(mgr.versions.is_empty());
    mgr.set_dest(Some("/dest".to_string()));
    assert_eq!(mgr.dest().as_deref(), Some("/dest"));
    let found = || vec![
        entry("backup_2024-01-01_10-00-00", 0),
        entry("backup_2024-02-01_10-00-00", 0),
        entry("backup_2024-02-15_10-00-00", 0),
    ];
    mgr.refresh(found());
    assert_eq!(mgr.versions[0], "/dest/backup_2024-02-15_10-00-00");
    assert_eq!(mgr.versions.len(), 3);
    mgr.filter = "BACKUP_2024-02".to_string();
    mgr.refresh(found());
    assert_eq!(mgr.versions, vec!["/dest/backup_2024-02-15_10-00-00", "/dest/backup_2024-02-01_10-00-00"]);
    mgr.sort_order = SortOrder::Oldest;
    mgr.refresh(found());
    assert_eq!(mgr.versions, vec!["/dest/backup_2024-02-01_10-00-00", "/dest/backup_2024-02-15_10-00-00"]);
    mgr.set_dest(None);
    mgr.refresh(found());
    assert!(mgr.versions.is_empty());
}

#[test]
fn theme_colours() {
    let light = AppTheme::from_dark_mode(false);
    let dark = AppTheme::from_dark_mode(true);
    assert_eq!(light.text_primary, Rgb { r: 51, g: 51, b: 51 });
    assert_eq!(dark.text_primary, Rgb { r: 220, g: 220, b: 220 });
    assert_eq!(dark.brand_color, light.brand_color);
    assert_eq!(light.border_color, Rgb { r: 193, g: 213, b: 225 });
    assert!(dark.is_dark && !light.is_dark);
}

#[test]
fn free_space_of_the_matching_disk() {
    let disks = vec![
        DiskSpace { mount_point: "D:\\".to_string(), available: 10 },
        DiskSpace { mount_point: "C:\\".to_string(), available: 20 },
    ];
    assert_eq!(available_space_for("C:\\Users\\me", &disks), 20);
    assert_eq!(available_space_for("E:\\x", &disks), u64::MAX / 2);
    let root = vec![DiskSpace { mount_point: "/".to_string(), available: 7 }];
    assert_eq!(available_space_for("anything", &root), 7);
    assert!(get_available_space("/").is_ok());
}

#[test]
fn test_validate_paths_rejects_same_folder() {
    assert!(matches!(check_distinct_paths("/data", "/data", true), Err(BackupError::SameFolder)));
    assert!(matches!(check_distinct_paths("/data", "/data/", true), Err(BackupError::SameFolder)));
    assert!(check_distinct_paths("/data", "/backup", true).is_ok());
    assert!(matches!(
        check_canonical("/data", Some("/real/data".to_string()), Some("/real/data".to_string())),
        Err(BackupError::SameFolder)
    ));
}

#[test]
fn test_validate_paths_rejects_nonexistent_source() {
    match check_distinct_paths("C:/nonexistent_path_12345", "/tmp", false) {
        Err(BackupError::SourceNotFound(p)) => assert_eq!(p, "C:/nonexistent_path_12345"),
        other => panic!("unexpected {:?}", other),
    }
    assert!(matches!(check_canonical("/x", None, Some("/y".to_string())), Err(BackupError::SourceNotFound(_))));
    match check_canonical("/x", Some("/x".to_string()), None) {
        Err(BackupError::CreateDirFailed(e)) => assert_eq!(e.kind(), std::io::ErrorKind::NotFound),
        other => panic!("unexpected {:?}", other),
    }
    assert!(check_canonical("/x", Some("/x".to_string()), Some("/y".to_string())).is_ok());
}

#[test]
fn window_decisions() {
    let s = Some("/a".to_string());
    let d = Some("/b".to_string());
    assert_eq!(field_validity(&s, true, &d, true), (Some(true), Some(true)));
    assert_eq!(field_validity(&s, false, &s, true), (Some(false), Some(false)));
    assert_eq!(field_validity(&None, true, &Some(String::new()), true), (None, None));
    assert_eq!(backup_request(&s, &d), Ok(("/a".to_string(), "/b".to_string())));
    assert_eq!(backup_request(&None, &d), Err("Por favor selecciona una carpeta origen.".to_string()));
    assert_eq!(backup_request(&s, &None), Err("Por favor selecciona una carpeta destino.".to_string()));
    assert_eq!(status_text(true, true, &None), "Respaldando...");
    assert_eq!(status_text(false, true, &Some("hoy 14:30".to_string())), "Programado: hoy 14:30");
    assert_eq!(status_text(false, true, &None), "Programado: —");
    assert_eq!(status_text(false, false, &None), "Inactivo");
    assert_eq!(expired_notices(Some(3), Some(1499)), (true, false));
    assert_eq!(expired_notices(None, Some(1500)), (false, true));
    assert!(space_reading_fresh(4));
    assert!(!space_reading_fresh(5));
}

#[test]
fn dropped_folders_fill_source_then_destination() {
    let mut source = None;
    let mut dest = None;
    assert!(!take_dropped_folders(&mut source, &mut dest, vec!["/one".to_string()]));
    assert_eq!(source.as_deref(), Some("/one"));
    assert!(take_dropped_folders(&mut source, &mut dest, vec!["/two".to_string(), "/three".to_string()]));
    assert_eq!(source.as_deref(), Some("/one"));
    assert_eq!(dest.as_deref(), Some("/three"));
    assert!(!take_dropped_folders(&mut source, &mut dest, vec![]));
}

#[test]
fn test_validate_paths_detects_same_folder() {
    let result = check_distinct_paths("/tmp/autocopy_same", "/tmp/autocopy_same", true);
    assert!(matches!(result, Err(BackupError::SameFolder)));
}

#[test]
fn refreshing_twice_lists_the_same_versions() {
    let mut mgr = VersionManager::new();
    mgr.set_dest(Some("/dest".to_string()));
    mgr.sort_order = SortOrder::Largest;
    let found = || vec![
        entry("backup_2024-03-01_10-00-00", 10),
        entry("backup_2024-01-01_10-00-00", 30),
        entry("backup_2024-02-01_10-00-00", 10),
    ];
    mgr.refresh(found());
    let first = mgr.versions.clone();
    let mut reversed = found();
    reversed.reverse();
    mgr.refresh(reversed);
    assert_eq!(mgr.versions, first);
    assert_eq!(
        first,
        vec![
            "/dest/backup_2024-01-01_10-00-00",
            "/dest/backup_2024-03-01_10-00-00",
            "/dest/backup_2024-02-01_10-00-00",
        ]
    );
}

fn checks() -> PathCheck {
    PathCheck::new("/data".to_string(), "/backup".to_string())
}

#[test]
fn path_checks_run_in_order() {
    let mut c = checks();
    assert!(matches!(c.action(), CheckAction::ReadSourceExists { ref source } if source == "/data"));
    c.advance(CheckEvent::Measured { estimated: 1, available: 0 });
    assert!(matches!(c.stage, CheckStage::SourceExistence));
    c.advance(CheckEvent::SourceExists(true));
    assert!(matches!(c.action(), CheckAction::Resolve { .. }));
    c.advance(CheckEvent::Resolved { source: Some("/real/data".to_string()), dest: Some("/real/backup".to_string()) });
    assert!(matches!(c.action(), CheckAction::EnsureDest { ref dest } if dest == "/backup"));
    c.advance(CheckEvent::DestEnsured(Ok(())));
    assert!(matches!(c.action(), CheckAction::Measure { .. }));
    c.advance(CheckEvent::Measured { estimated: 10, available: 10 });
    assert!(matches!(c.action(), CheckAction::Finish));
    assert!(c.into_result().is_ok());
}

#[test]
fn the_first_failing_path_check_decides() {
    let mut c = checks();
    c.advance(CheckEvent::SourceExists(false));
    assert!(matches!(c.into_result(), Err(BackupError::SourceNotFound(ref s)) if s == "/data"));

    let mut c = PathCheck::new("/data".to_string(), "/data".to_string());
    c.advance(CheckEvent::SourceExists(true));
    assert!(matches!(c.into_result(), Err(BackupError::SameFolder)));

    let mut c = checks();
    c.advance(CheckEvent::SourceExists(true));
    c.advance(CheckEvent::Resolved { source: Some("/x".to_string()), dest: None });
    assert!(matches!(c.into_result(), Err(BackupError::CreateDirFailed(_))));

    let mut c = checks();
    c.advance(CheckEvent::SourceExists(true));
    c.advance(CheckEvent::Resolved { source: Some("/x".to_string()), dest: Some("/x".to_string()) });
    assert!(matches!(c.into_result(), Err(BackupError::SameFolder)));

    let mut c = checks();
    c.advance(CheckEvent::SourceExists(true));
    c.advance(CheckEvent::Resolved { source: Some("/x".to_string()), dest: Some("/y".to_string()) });
    c.advance(CheckEvent::DestEnsured(Err(std::io::Error::new(std::io::ErrorKind::Other, "denied"))));
    assert!(matches!(c.into_result(), Err(BackupError::CreateDirFailed(_))));

    let mut c = checks();
    c.advance(CheckEvent::SourceExists(true));
    c.advance(CheckEvent::Resolved { source: Some("/x".to_string()), dest: Some("/y".to_string()) });
    c.advance(CheckEvent::DestEnsured(Ok(())));
    c.advance(CheckEvent::Measured { estimated: 3 * 1048576 + 5, available: 2 * 1048576 });
    match c.into_result() {
        Err(BackupError::InsufficientSpace { needed_mb, available_mb }) => assert_eq!((needed_mb, available_mb), (3, 2)),
        other => panic!("unexpected {:?}", other),
    }
}
