use autocopy::clock::LocalTime;
use autocopy::config::{AppConfig, MissingPath};
use autocopy::error::BackupError;
use autocopy::schedule::{
    format_schedule_time, is_countable_time, next_backup_display, next_backup_display_now, parse_schedule_time,
    query_task_args, query_task_details_args, query_task_xml_args, schedule_outcome, schedule_task_args,
    scheduled_time_from_listing, scheduled_time_from_xml, unschedule_outcome,
    unschedule_task_args, validate_schedule_time, ScheduleMonitor, ScheduleResult,
};

fn at(hour: u32, minute: u32) -> LocalTime {
    LocalTime { year: 2024, month: 6, day: 3, hour, minute, second: 0 }
}

#[test]
fn test_schedule_invalid_time() {
    // "25:99" has the two fields the task needs; schtasks itself refuses it,
    // and the library's own check of a time refuses it too.
    assert!(schedule_task_args("C:\\test\\autocopy.exe", "25:99").is_ok());
    assert!(!validate_schedule_time("25:99"));
    assert!(schedule_outcome(false, "ERROR: Invalid starttime value.".to_string()).is_err());
}

#[test]
fn schedule_args_for_a_valid_time() {
    let args = schedule_task_args("C:\\test\\autocopy.exe", "14:30").unwrap();
    assert_eq!(
        args,
        vec![
            "/create",
            "/sc",
            "daily",
            "/st",
            "14:30",
            "/tn",
            "AutoCopy",
            "/tr",
            "\"C:\\test\\autocopy.exe\" --backup",
            "/f"
        ]
    );
}

#[test]
fn schedule_args_need_two_fields() {
    match schedule_task_args("x.exe", "1430") {
        Err(BackupError::InvalidScheduleTime(t)) => assert_eq!(t, "1430"),
        other => panic!("unexpected {:?}", other),
    }
    assert!(matches!(schedule_task_args("x.exe", "14:30:00"), Err(BackupError::InvalidScheduleTime(_))));
}

#[test]
fn query_and_delete_args() {
    assert_eq!(unschedule_task_args(), vec!["/delete", "/tn", "AutoCopy", "/f"]);
    assert_eq!(query_task_args(), vec!["/query", "/tn", "AutoCopy"]);
    assert_eq!(query_task_details_args(), vec!["/query", "/tn", "AutoCopy", "/fo", "list", "/v"]);
    assert_eq!(query_task_xml_args(), vec!["/query", "/tn", "AutoCopy", "/xml"]);
}

#[test]
fn scheduler_answers() {
    assert!(schedule_outcome(true, String::new()).is_ok());
    match schedule_outcome(false, "ERROR: access denied".to_string()) {
        Err(BackupError::SchedulingFailed(m)) => assert_eq!(m, "ERROR: access denied"),
        other => panic!("unexpected {:?}", other),
    }
    assert!(unschedule_outcome(false, "ERROR: The system cannot find the file specified.".to_string()).is_ok());
    assert!(unschedule_outcome(false, "ERROR: task does not exist".to_string()).is_ok());
    assert!(matches!(
        unschedule_outcome(false, "ERROR: access denied".to_string()),
        Err(BackupError::SchedulingFailed(_))
    ));
}

#[test]
fn reading_the_task_listing() {
    let listing = "Folder: \\\r\nHostName: PC\r\nTaskName: \\AutoCopy\r\nStart Time:    2:30:00 PM\r\nStart Time: 14:30:00\r\n";
    assert_eq!(scheduled_time_from_listing(listing), Some("14:30".to_string()));
    let spanish = "Nombre: AutoCopy\nHora de inicio:   09:05:00\n";
    assert_eq!(scheduled_time_from_listing(spanish), Some("09:05".to_string()));
    assert_eq!(scheduled_time_from_listing("Start Time: N/A\n"), None);
    assert_eq!(scheduled_time_from_listing("Start Time: 25:00:00\nStart Time: 07:15:00"), Some("07:15".to_string()));
    assert_eq!(scheduled_time_from_listing(""), None);
}

#[test]
fn reading_the_task_xml() {
    let xml = "<Triggers><CalendarTrigger><StartBoundary>2024-06-03T14:30:00</StartBoundary></CalendarTrigger></Triggers>";
    assert_eq!(scheduled_time_from_xml(xml), Some("14:30".to_string()));
    assert_eq!(scheduled_time_from_xml("<StartBoundary>2024-06-03</StartBoundary>"), None);
    assert_eq!(scheduled_time_from_xml("<Task/>"), None);
    assert_eq!(scheduled_time_from_xml("<StartBoundary>x"), None);
}

#[test]
fn schedule_times_are_checked() {
    assert!(validate_schedule_time("00:00"));
    assert!(validate_schedule_time("23:59"));
    assert!(validate_schedule_time("7:5"));
    assert!(!validate_schedule_time("24:00"));
    assert!(!validate_schedule_time("12:60"));
    assert!(!validate_schedule_time("12"));
    assert!(!validate_schedule_time("a:b"));
    assert!(!validate_schedule_time("1:2:3"));
}

#[test]
fn saved_times_read_with_defaults() {
    assert_eq!(parse_schedule_time(&None), (14, 30));
    assert_eq!(parse_schedule_time(&Some("08:45".to_string())), (8, 45));
    assert_eq!(parse_schedule_time(&Some("xx:45".to_string())), (14, 45));
    assert_eq!(parse_schedule_time(&Some("08:yy".to_string())), (8, 30));
    assert_eq!(parse_schedule_time(&Some("0845".to_string())), (14, 30));
    assert_eq!(parse_schedule_time(&Some("+8:05".to_string())), (8, 5));
}

#[test]
fn picker_times_read_back() {
    for (h, m) in [(0u32, 0u32), (9, 5), (23, 59), (14, 30)] {
        let t = format_schedule_time(h, m);
        assert_eq!(parse_schedule_time(&Some(t.clone())), (h, m));
        assert!(validate_schedule_time(&t));
    }
    assert_eq!(format_schedule_time(7, 3), "07:03");
    assert_eq!(format_schedule_time(123, 4), "123:04");
}

#[test]
fn next_backup_is_today_or_tomorrow() {
    assert_eq!(next_backup_display(true, "14:30", at(9, 0)), Some("hoy 14:30".to_string()));
    assert_eq!(next_backup_display(true, "14:30", at(14, 30)), Some("mañana 14:30".to_string()));
    assert_eq!(next_backup_display(true, "7:5", at(20, 0)), Some("mañana 07:05".to_string()));
    assert_eq!(next_backup_display(false, "14:30", at(9, 0)), None);
    assert_eq!(next_backup_display(true, "later", at(9, 0)), None);
    assert!(is_countable_time("14:30"));
    assert!(!is_countable_time("99999999:00"));
}

#[test]
fn monitor_fires_once_a_day() {
    let mut monitor = ScheduleMonitor::new("14:30".to_string());
    assert!(!monitor.tick(at(14, 29)));
    assert!(monitor.tick(at(14, 30)));
    assert_eq!(monitor.last_executed_day, "2024-06-03");
    assert!(!monitor.tick(at(14, 30)));
    let next_day = LocalTime { year: 2024, month: 6, day: 4, hour: 14, minute: 30, second: 0 };
    assert!(monitor.tick(next_day));
}

#[test]
fn schedule_result_starts_empty() {
    let r = ScheduleResult::new();
    assert!(!r.config_changed);
    assert!(r.success_message.is_none() && r.error_message.is_none());
}

#[test]
fn config_updates() {
    let base = AppConfig::default();
    let cfg = base.with_schedule(true, "06:15");
    assert!(cfg.schedule_enabled);
    assert_eq!(cfg.schedule_time.as_deref(), Some("06:15"));
    assert_eq!(cfg.max_versions, 3);
    let cfg = base.with_settings(Some("/a".to_string()), Some("/b".to_string()), 7, false, "14:30".to_string());
    assert_eq!(cfg.last_source.as_deref(), Some("/a"));
    assert_eq!(cfg.max_versions, 7);
    assert_eq!(cfg.schedule_time.as_deref(), Some("14:30"));
    assert_eq!(cfg.backup_paths(), Ok(("/a".to_string(), "/b".to_string())));
}

#[test]
fn config_without_folders() {
    let cfg = AppConfig::default();
    assert_eq!(cfg.backup_paths(), Err(MissingPath::Source));
    let cfg = cfg.with_settings(Some("/a".to_string()), None, 3, false, "14:30".to_string());
    assert_eq!(cfg.backup_paths(), Err(MissingPath::Destination));
}

#[test]
fn announcements_and_ticks_read_the_clock() {
    let text = next_backup_display_now(true, "07:05").expect("a readable time is announced");
    assert!(text == "hoy 07:05" || text == "mañana 07:05");
    assert_eq!(next_backup_display_now(false, "07:05"), None);
    assert_eq!(next_backup_display_now(true, "7"), None);
    let mut monitor = ScheduleMonitor::new("not a time".to_string());
    assert!(!monitor.tick_now());
    assert!(monitor.last_executed_day.is_empty());
}
