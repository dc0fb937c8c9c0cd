use habit_tracker::database::{CaptureRecord, Database};
use habit_tracker::error::ReportError;
use habit_tracker::report::{extract_time, format_duration, render_report, Report};

fn create_test_db_with_data() -> Database {
    let mut db = Database::open(Vec::new()).unwrap();

    let records = vec![
        CaptureRecord {
            id: None,
            captured_at: "2024-12-30T10:00:00".to_string(),
            image_path: Some("/path/1.jpg".to_string()),
            active_app: "VS Code".to_string(),
            window_title: "main.rs".to_string(),
            is_paused: false,
            is_private: false,
            ocr_text: None,
        },
        CaptureRecord {
            id: None,
            captured_at: "2024-12-30T10:01:00".to_string(),
            image_path: Some("/path/2.jpg".to_string()),
            active_app: "VS Code".to_string(),
            window_title: "lib.rs".to_string(),
            is_paused: false,
            is_private: false,
            ocr_text: None,
        },
        CaptureRecord {
            id: None,
            captured_at: "2024-12-30T10:02:00".to_string(),
            image_path: Some("/path/3.jpg".to_string()),
            active_app: "Chrome".to_string(),
            window_title: "Google".to_string(),
            is_paused: false,
            is_private: false,
            ocr_text: None,
        },
    ];

    for record in &records {
        db.insert_capture(record).unwrap();
    }

    db
}

fn db_with_apps(apps: &[&str]) -> Database {
    let mut db = Database::open(Vec::new()).unwrap();
    for (i, app) in apps.iter().enumerate() {
        db.insert_capture(&CaptureRecord {
            id: None,
            captured_at: format!("2024-12-30T10:{:02}:00", i),
            image_path: None,
            active_app: app.to_string(),
            window_title: "".to_string(),
            is_paused: false,
            is_private: false,
            ocr_text: None,
        })
        .unwrap();
    }
    db
}

#[test]
fn test_timeline_generation() {
    let db = create_test_db_with_data();
    let report = Report::new(db, 60);

    let timeline = report.timeline("2024-12-30").unwrap();
    assert_eq!(timeline.len(), 3);
    assert_eq!(timeline[0].active_app, "VS Code");
    assert_eq!(timeline[0].time, "10:00:00");
}

#[test]
fn test_time_by_app_calculation() {
    let db = create_test_db_with_data();
    let report = Report::new(db, 60);

    let summaries = report.time_by_app("2024-12-30").unwrap();

    assert_eq!(summaries.len(), 2);

    assert_eq!(summaries[0].app_name, "VS Code");
    assert_eq!(summaries[0].capture_count, 2);
    assert_eq!(summaries[0].duration_seconds, 120);

    assert_eq!(summaries[1].app_name, "Chrome");
    assert_eq!(summaries[1].capture_count, 1);
    assert_eq!(summaries[1].duration_seconds, 60);
}

#[test]
fn test_empty_date() {
    let db = create_test_db_with_data();
    let report = Report::new(db, 60);

    let timeline = report.timeline("2099-01-01").unwrap();
    assert!(timeline.is_empty());
}

#[test]
fn test_extract_time() {
    assert_eq!(extract_time("2024-12-30T10:30:45"), "10:30:45");
    assert_eq!(extract_time("invalid"), "invalid");
}

#[test]
fn test_format_duration() {
    assert_eq!(format_duration(60), "1分");
    assert_eq!(format_duration(3600), "1時間0分");
    assert_eq!(format_duration(3660), "1時間1分");
    assert_eq!(format_duration(7260), "2時間1分");
}

#[test]
fn aggregation_of_a_a_b() {
    let report = Report::new(db_with_apps(&["A", "A", "B"]), 60);
    let groups = report.time_by_app("2024-12-30").unwrap();
    assert_eq!(groups.len(), 2);
    assert_eq!(groups[0].app_name, "A");
    assert_eq!(groups[0].capture_count, 2);
    assert_eq!(groups[0].duration_seconds, 120);
    assert_eq!(groups[1].app_name, "B");
    assert_eq!(groups[1].capture_count, 1);
    assert_eq!(groups[1].duration_seconds, 60);
}

#[test]
fn equal_durations_keep_the_order_of_first_appearance() {
    let report = Report::new(db_with_apps(&["C", "A", "B", "A", "C", "B", "D", "D", "D"]), 30);
    let groups = report.time_by_app("2024-12-30").unwrap();
    let names: Vec<&str> = groups.iter().map(|g| g.app_name.as_str()).collect();
    assert_eq!(names, vec!["D", "C", "A", "B"]);
    assert_eq!(groups[0].duration_seconds, 90);
    assert_eq!(groups[1].duration_seconds, 60);
    assert_eq!(groups[3].capture_count, 2);
}

#[test]
fn names_are_grouped_by_exact_match() {
    let report = Report::new(db_with_apps(&["a", "A", "a ", "a"]), 1);
    let groups = report.time_by_app("2024-12-30").unwrap();
    assert_eq!(groups.len(), 3);
    assert_eq!(groups[0].app_name, "a");
    assert_eq!(groups[0].capture_count, 2);
}

#[test]
fn timeline_keeps_adjacent_equal_entries() {
    let report = Report::new(db_with_apps(&["A", "A"]), 60);
    let timeline = report.timeline("2024-12-30").unwrap();
    assert_eq!(timeline.len(), 2);
    assert_eq!(timeline[0].time, "10:00:00");
    assert_eq!(timeline[1].time, "10:01:00");
}

#[test]
fn summary_of_an_empty_day_is_empty() {
    let report = Report::new(db_with_apps(&["A"]), 60);
    assert!(report.time_by_app("2099-01-01").unwrap().is_empty());
}

#[test]
fn time_is_what_stands_between_the_first_two_t() {
    assert_eq!(extract_time("aTbTc"), "b");
    assert_eq!(extract_time("T"), "");
    assert_eq!(extract_time("Tx"), "x");
    assert_eq!(extract_time("xT"), "");
    assert_eq!(extract_time(""), "");
    assert_eq!(extract_time("日付T時刻"), "時刻");
}

#[test]
fn durations_drop_the_seconds_beyond_the_minute() {
    assert_eq!(format_duration(0), "0分");
    assert_eq!(format_duration(59), "0分");
    assert_eq!(format_duration(119), "1分");
    assert_eq!(format_duration(3599), "59分");
    assert_eq!(format_duration(86400), "24時間0分");
    assert_eq!(format_duration(u64::MAX), "5124095576030431時間0分");
}

#[test]
fn report_of_a_day_with_events() {
    let report = Report::new(create_test_db_with_data(), 60);
    let text = report.render("2024-12-30").unwrap();
    assert_eq!(
        text,
        "=== 2024-12-30 の活動レポート ===\n\n\
         --- タイムライン ---\n\
         10:00:00 | VS Code - main.rs\n\
         10:01:00 | VS Code - lib.rs\n\
         10:02:00 | Chrome - Google\n\
         \n\
         --- アプリ別時間 ---\n\
         VS Code: 2分 (2 キャプチャ)\n\
         Chrome: 1分 (1 キャプチャ)\n"
    );
}

#[test]
fn report_of_a_day_without_events_says_so() {
    let report = Report::new(create_test_db_with_data(), 60);
    assert_eq!(
        report.render("2099-01-01").unwrap(),
        "2099-01-01にキャプチャはありませんでした。\n"
    );
}

#[test]
fn report_leaves_out_an_empty_title() {
    let report = Report::new(db_with_apps(&["Finder"]), 3600);
    let timeline = report.timeline("2024-12-30").unwrap();
    let summaries = report.time_by_app("2024-12-30").unwrap();
    assert_eq!(
        render_report("2024-12-30", &timeline, &summaries),
        "=== 2024-12-30 の活動レポート ===\n\n\
         --- タイムライン ---\n\
         10:00:00 | Finder\n\
         \n\
         --- アプリ別時間 ---\n\
         Finder: 1時間0分 (1 キャプチャ)\n"
    );
}

#[test]
fn an_empty_day_is_reported_whatever_the_interval() {
    let report = Report::new(db_with_apps(&["A", "B"]), u64::MAX);
    assert_eq!(
        report.render("2099-01-01").unwrap(),
        "2099-01-01にキャプチャはありませんでした。\n"
    );
    assert!(report.time_by_app("2099-01-01").unwrap().is_empty());
    assert!(report.timeline("2099-01-01").unwrap().is_empty());
}

#[test]
fn only_the_estimate_of_a_group_has_to_fit() {
    let report = Report::new(db_with_apps(&["A", "B"]), u64::MAX);
    let groups = report.time_by_app("2024-12-30").unwrap();
    assert_eq!(groups.len(), 2);
    assert_eq!(groups[0].app_name, "A");
    assert_eq!(groups[0].duration_seconds, u64::MAX);
    assert_eq!(groups[1].app_name, "B");
    assert!(report.render("2024-12-30").is_ok());

    let report = Report::new(db_with_apps(&["A", "B", "A"]), u64::MAX / 2);
    let groups = report.time_by_app("2024-12-30").unwrap();
    assert_eq!(groups[0].duration_seconds, u64::MAX - 1);
    assert_eq!(groups[1].duration_seconds, u64::MAX / 2);
}

#[test]
fn an_estimate_that_does_not_fit_is_an_error() {
    let report = Report::new(db_with_apps(&["A", "B", "A"]), u64::MAX);
    assert!(matches!(report.time_by_app("2024-12-30"), Err(ReportError::DurationOverflow)));
    assert!(matches!(report.render("2024-12-30"), Err(ReportError::DurationOverflow)));
    assert_eq!(report.timeline("2024-12-30").unwrap().len(), 3);
    let report = Report::new(db_with_apps(&["A", "B", "A"]), u64::MAX / 2 + 1);
    assert!(matches!(report.time_by_app("2024-12-30"), Err(ReportError::DurationOverflow)));
}

#[test]
fn durations_come_in_descending_order() {
    let report = Report::new(db_with_apps(&["A", "B", "B", "C", "C", "C", "B", "D"]), 7);
    let groups = report.time_by_app("2024-12-30").unwrap();
    for pair in groups.windows(2) {
        assert!(pair[0].duration_seconds >= pair[1].duration_seconds);
    }
    let total: u64 = groups.iter().map(|g| g.capture_count).sum();
    assert_eq!(total, 8);
    let again = report.time_by_app("2024-12-30").unwrap();
    let names: Vec<&str> = groups.iter().map(|g| g.app_name.as_str()).collect();
    let names_again: Vec<&str> = again.iter().map(|g| g.app_name.as_str()).collect();
    assert_eq!(names, names_again);
    assert_eq!(names, vec!["B", "C", "A", "D"]);
}
