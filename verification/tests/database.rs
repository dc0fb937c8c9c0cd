use habit_tracker::database::{backfill_step, BackfillStep, CaptureRecord, Database};
use habit_tracker::error::{DatabaseError, OcrError};

fn create_test_db() -> Database {
    Database::open(Vec::new()).unwrap()
}

fn record(captured_at: &str, image_path: Option<&str>, active_app: &str) -> CaptureRecord {
    CaptureRecord {
        id: None,
        captured_at: captured_at.to_string(),
        image_path: image_path.map(|p| p.to_string()),
        active_app: active_app.to_string(),
        window_title: "".to_string(),
        is_paused: false,
        is_private: false,
        ocr_text: None,
    }
}

#[test]
fn test_insert_capture() {
    let mut db = create_test_db();

    let record = CaptureRecord {
        id: None,
        captured_at: "2024-12-30T10:00:00".to_string(),
        image_path: Some("/path/to/image.jpg".to_string()),
        active_app: "VS Code".to_string(),
        window_title: "main.rs".to_string(),
        is_paused: false,
        is_private: false,
        ocr_text: None,
    };

    let id = db.insert_capture(&record).unwrap();
    assert!(id > 0);
}

#[test]
fn test_get_captures_by_date() {
    let mut db = create_test_db();

    let records = vec![
        CaptureRecord {
            id: None,
            captured_at: "2024-12-30T10:00:00".to_string(),
            image_path: Some("/path/1.jpg".to_string()),
            active_app: "VS Code".to_string(),
            window_title: "file1.rs".to_string(),
            is_paused: false,
            is_private: false,
            ocr_text: None,
        },
        CaptureRecord {
            id: None,
            captured_at: "2024-12-30T11:00:00".to_string(),
            image_path: Some("/path/2.jpg".to_string()),
            active_app: "Chrome".to_string(),
            window_title: "Google".to_string(),
            is_paused: false,
            is_private: false,
            ocr_text: None,
        },
        CaptureRecord {
            id: None,
            captured_at: "2024-12-31T10:00:00".to_string(),
            image_path: Some("/path/3.jpg".to_string()),
            active_app: "Terminal".to_string(),
            window_title: "".to_string(),
            is_paused: false,
            is_private: false,
            ocr_text: None,
        },
    ];

    for record in &records {
        db.insert_capture(record).unwrap();
    }

    let result = db.get_captures_by_date("2024-12-30").unwrap();
    assert_eq!(result.len(), 2);
    assert_eq!(result[0].active_app, "VS Code");
    assert_eq!(result[1].active_app, "Chrome");
}

#[test]
fn test_get_captures_empty_date() {
    let db = create_test_db();

    let result = db.get_captures_by_date("2099-01-01").unwrap();
    assert!(result.is_empty());
}

#[test]
fn test_insert_with_null_image_path() {
    let mut db = create_test_db();

    let record = CaptureRecord {
        id: None,
        captured_at: "2024-12-30T10:00:00".to_string(),
        image_path: None,
        active_app: "VS Code".to_string(),
        window_title: "".to_string(),
        is_paused: true,
        is_private: false,
        ocr_text: None,
    };

    let id = db.insert_capture(&record).unwrap();
    assert!(id > 0);

    let result = db.get_captures_by_date("2024-12-30").unwrap();
    assert_eq!(result.len(), 1);
    assert!(result[0].image_path.is_none());
    assert!(result[0].is_paused);
}

#[test]
fn ids_count_up_from_one_and_ignore_the_given_id() {
    let mut db = create_test_db();
    let mut first = record("2024-12-30T10:00:00", None, "A");
    first.id = Some(99);
    assert_eq!(db.insert_capture(&first).unwrap(), 1);
    assert_eq!(db.insert_capture(&first).unwrap(), 2);
    assert_eq!(db.len(), 2);
    let rows = db.get_captures_by_date("2024").unwrap();
    assert_eq!(rows[0].id, Some(1));
    assert_eq!(rows[1].id, Some(2));
}

#[test]
fn day_query_sorts_by_stamp_whatever_the_insertion_order() {
    let mut db = create_test_db();
    db.insert_capture(&record("2024-12-30T12:00:00", None, "late")).unwrap();
    db.insert_capture(&record("2024-12-31T00:00:00", None, "other day")).unwrap();
    db.insert_capture(&record("2024-12-30T08:00:00", None, "early")).unwrap();
    db.insert_capture(&record("2024-12-30T12:00:00", None, "late again")).unwrap();
    db.insert_capture(&record("2024-12-30T10:00:00", None, "middle")).unwrap();

    let apps: Vec<String> = db
        .get_captures_by_date("2024-12-30")
        .unwrap()
        .into_iter()
        .map(|r| r.active_app)
        .collect();
    assert_eq!(apps, vec!["early", "middle", "late", "late again"]);
}

#[test]
fn day_is_matched_as_a_prefix_and_with_case() {
    let mut db = create_test_db();
    db.insert_capture(&record("2024-12-30T10:00:00", None, "A")).unwrap();
    db.insert_capture(&record("x2024-12-30T10:00:00", None, "B")).unwrap();
    db.insert_capture(&record("2024-12-3", None, "C")).unwrap();
    assert_eq!(db.get_captures_by_date("2024-12-30").unwrap().len(), 1);
    assert_eq!(db.get_captures_by_date("2024-12-30t").unwrap().len(), 0);
    assert_eq!(db.get_captures_by_date("2024-12-3_").unwrap().len(), 0);
    assert_eq!(db.get_captures_by_date("").unwrap().len(), 3);
}

#[test]
fn backlog_is_most_recent_first_and_limited() {
    let mut db = create_test_db();
    db.insert_capture(&record("2024-12-30T10:00:00", Some("/1.jpg"), "one")).unwrap();
    db.insert_capture(&record("2024-12-30T12:00:00", Some("/2.jpg"), "two")).unwrap();
    db.insert_capture(&record("2024-12-30T11:00:00", None, "no image")).unwrap();
    db.insert_capture(&record("2024-12-30T11:00:00", Some("/4.jpg"), "four")).unwrap();
    db.insert_capture(&record("2024-12-30T12:00:00", Some("/5.jpg"), "five")).unwrap();
    let mut done = record("2024-12-30T13:00:00", Some("/6.jpg"), "done");
    done.ocr_text = Some("text".to_string());
    db.insert_capture(&done).unwrap();

    let apps = |rows: Vec<CaptureRecord>| -> Vec<String> {
        rows.into_iter().map(|r| r.active_app).collect()
    };
    assert_eq!(
        apps(db.get_captures_without_ocr(10).unwrap()),
        vec!["five", "two", "four", "one"]
    );
    assert_eq!(apps(db.get_captures_without_ocr(4).unwrap()), vec!["five", "two", "four", "one"]);
    assert_eq!(apps(db.get_captures_without_ocr(2).unwrap()), vec!["five", "two"]);
    assert!(db.get_captures_without_ocr(0).unwrap().is_empty());
    assert_eq!(db.get_captures_without_ocr(-1).unwrap().len(), 4);
}

#[test]
fn update_changes_one_text_and_nothing_else() {
    let mut db = create_test_db();
    db.insert_capture(&record("2024-12-30T10:00:00", Some("/1.jpg"), "one")).unwrap();
    db.insert_capture(&record("2024-12-30T11:00:00", Some("/2.jpg"), "two")).unwrap();
    db.insert_capture(&record("2024-12-30T12:00:00", Some("/3.jpg"), "three")).unwrap();

    db.update_ocr_text(2, "hello").unwrap();

    let rows = db.get_captures_by_date("2024-12-30").unwrap();
    assert_eq!(rows.len(), 3);
    assert_eq!(rows[0].ocr_text, None);
    assert_eq!(rows[1].ocr_text, Some("hello".to_string()));
    assert_eq!(rows[2].ocr_text, None);
    assert_eq!(rows[1].id, Some(2));
    assert_eq!(rows[1].captured_at, "2024-12-30T11:00:00");
    assert_eq!(rows[1].image_path, Some("/2.jpg".to_string()));
    assert_eq!(rows[1].active_app, "two");
    assert_eq!(rows[1].window_title, "");
    assert!(!rows[1].is_paused);
    assert!(!rows[1].is_private);
    assert_eq!(rows[0].active_app, "one");
    assert_eq!(rows[2].active_app, "three");

    let backlog = db.get_captures_without_ocr(-1).unwrap();
    assert_eq!(backlog.len(), 2);
    assert!(backlog.iter().all(|r| r.id != Some(2)));
}

#[test]
fn update_of_a_missing_row_is_reported() {
    let mut db = create_test_db();
    db.insert_capture(&record("2024-12-30T10:00:00", Some("/1.jpg"), "one")).unwrap();
    assert!(matches!(db.update_ocr_text(7, "x"), Err(DatabaseError::RowNotFound(7))));
    assert!(matches!(db.update_ocr_text(0, "x"), Err(DatabaseError::RowNotFound(0))));
    assert_eq!(db.get_captures_without_ocr(-1).unwrap().len(), 1);
}

#[test]
fn open_takes_stored_rows_and_goes_on_after_the_last_id() {
    let mut a = record("2024-12-30T10:00:00", None, "A");
    a.id = Some(3);
    let mut b = record("2024-12-30T09:00:00", None, "B");
    b.id = Some(8);
    let mut db = Database::open(vec![a, b]).unwrap();
    assert_eq!(db.len(), 2);
    assert_eq!(db.insert_capture(&record("2024-12-30T11:00:00", None, "C")).unwrap(), 9);
    let rows = db.get_captures_by_date("2024-12-30").unwrap();
    assert_eq!(rows[0].active_app, "B");
    assert_eq!(rows[1].active_app, "A");
    assert_eq!(rows[2].active_app, "C");
}

#[test]
fn open_refuses_rows_that_are_no_table() {
    let without_id = record("2024-12-30T10:00:00", None, "A");
    assert!(matches!(
        Database::open(vec![without_id]),
        Err(DatabaseError::MigrationError(_))
    ));
    let mut a = record("2024-12-30T10:00:00", None, "A");
    a.id = Some(2);
    let mut b = record("2024-12-30T10:00:00", None, "B");
    b.id = Some(2);
    assert!(matches!(Database::open(vec![a, b]), Err(DatabaseError::MigrationError(_))));
    let mut zero = record("2024-12-30T10:00:00", None, "A");
    zero.id = Some(0);
    assert!(matches!(Database::open(vec![zero]), Err(DatabaseError::MigrationError(_))));
}

#[test]
fn insert_fails_when_no_id_is_left() {
    let mut last = record("2024-12-30T10:00:00", None, "A");
    last.id = Some(i64::MAX);
    let mut db = Database::open(vec![last]).unwrap();
    assert!(matches!(
        db.insert_capture(&record("2024-12-30T11:00:00", None, "B")),
        Err(DatabaseError::IdSpaceExhausted)
    ));
    assert_eq!(db.len(), 1);
}

#[test]
fn clone_keeps_every_field() {
    let mut r = record("2024-12-30T10:00:00", Some("/1.jpg"), "A");
    r.id = Some(5);
    r.ocr_text = Some("t".to_string());
    r.is_private = true;
    let c = r.clone();
    assert_eq!(c.id, Some(5));
    assert_eq!(c.captured_at, "2024-12-30T10:00:00");
    assert_eq!(c.image_path, Some("/1.jpg".to_string()));
    assert_eq!(c.active_app, "A");
    assert_eq!(c.ocr_text, Some("t".to_string()));
    assert!(c.is_private);
}

#[test]
fn text_without_an_image_is_not_stored() {
    let mut db = create_test_db();
    db.insert_capture(&record("2024-12-30T10:00:00", None, "A")).unwrap();
    let mut bad = record("2024-12-30T11:00:00", None, "B");
    bad.ocr_text = Some("text".to_string());
    assert!(!bad.text_has_image());
    assert!(matches!(db.insert_capture(&bad), Err(DatabaseError::TextWithoutImage)));
    assert_eq!(db.len(), 1);
    assert_eq!(db.insert_capture(&record("2024-12-30T12:00:00", None, "C")).unwrap(), 2);

    let mut good = record("2024-12-30T13:00:00", Some("/1.jpg"), "D");
    good.ocr_text = Some("text".to_string());
    assert!(good.text_has_image());
    assert_eq!(db.insert_capture(&good).unwrap(), 3);
    assert!(record("2024-12-30T13:00:00", None, "E").text_has_image());
}

#[test]
fn text_without_an_image_is_refused_even_when_no_id_is_left() {
    let mut last = record("2024-12-30T10:00:00", None, "A");
    last.id = Some(i64::MAX);
    let mut db = Database::open(vec![last]).unwrap();
    let mut bad = record("2024-12-30T11:00:00", None, "B");
    bad.ocr_text = Some("text".to_string());
    assert!(matches!(db.insert_capture(&bad), Err(DatabaseError::TextWithoutImage)));
}

#[test]
fn open_refuses_rows_with_text_and_no_image() {
    let mut bad = record("2024-12-30T10:00:00", None, "A");
    bad.id = Some(1);
    bad.ocr_text = Some("text".to_string());
    assert!(matches!(Database::open(vec![bad]), Err(DatabaseError::MigrationError(_))));
}

#[test]
fn update_refuses_a_row_without_image() {
    let mut db = create_test_db();
    db.insert_capture(&record("2024-12-30T10:00:00", None, "no image")).unwrap();
    db.insert_capture(&record("2024-12-30T11:00:00", Some("/2.jpg"), "image")).unwrap();
    assert!(matches!(db.update_ocr_text(1, "x"), Err(DatabaseError::TextWithoutImage)));
    let rows = db.get_captures_by_date("2024-12-30").unwrap();
    assert_eq!(rows[0].ocr_text, None);
    assert_eq!(rows[1].ocr_text, None);
    db.update_ocr_text(2, "x").unwrap();
    db.update_ocr_text(2, "y").unwrap();
    let rows = db.get_captures_by_date("2024-12-30").unwrap();
    assert_eq!(rows[1].ocr_text, Some("y".to_string()));
}

#[test]
fn backfill_stores_only_text_that_was_recognised() {
    let mut row = record("2024-12-30T10:00:00", Some("/1.jpg"), "A");
    row.id = Some(4);
    match backfill_step(&row, &Ok("hello".to_string())) {
        BackfillStep::Fill { id, text } => {
            assert_eq!(id, 4);
            assert_eq!(text, "hello");
        }
        _ => panic!("Expected Fill"),
    }
    assert!(matches!(backfill_step(&row, &Ok("".to_string())), BackfillStep::Skip));
    match backfill_step(&row, &Err(OcrError::ExecutionFailed("boom".to_string()))) {
        BackfillStep::Failed(reason) => assert_eq!(reason, "OCR実行失敗: boom"),
        _ => panic!("Expected Failed"),
    }
    match backfill_step(&row, &Err(OcrError::ImageNotFound("/1.jpg".to_string()))) {
        BackfillStep::Failed(reason) => assert_eq!(reason, "画像が見つかりません: /1.jpg"),
        _ => panic!("Expected Failed"),
    }

    let mut no_image = record("2024-12-30T10:00:00", None, "A");
    no_image.id = Some(5);
    assert!(matches!(backfill_step(&no_image, &Ok("hello".to_string())), BackfillStep::Skip));
    assert!(matches!(
        backfill_step(&no_image, &Err(OcrError::ExecutionFailed("boom".to_string()))),
        BackfillStep::Skip
    ));
    let no_id = record("2024-12-30T10:00:00", Some("/1.jpg"), "A");
    assert!(matches!(backfill_step(&no_id, &Ok("hello".to_string())), BackfillStep::Skip));
}
