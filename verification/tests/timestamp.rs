use habit_tracker::timestamp::Timestamp;

#[test]
fn texts_of_a_moment() {
    let moment = Timestamp::new(2024, 12, 30, 10, 30, 45).unwrap();
    assert_eq!(moment.captured_at(), "2024-12-30T10:30:45");
    assert_eq!(moment.date(), "2024-12-30");
    assert_eq!(moment.image_file_name(), "103045.jpg");
}

#[test]
fn small_numbers_are_padded_with_zeros() {
    let moment = Timestamp::new(7, 1, 2, 3, 4, 5).unwrap();
    assert_eq!(moment.captured_at(), "0007-01-02T03:04:05");
    assert_eq!(moment.date(), "0007-01-02");
    assert_eq!(moment.image_file_name(), "030405.jpg");
    let first = Timestamp::new(0, 1, 1, 0, 0, 0).unwrap();
    assert_eq!(first.captured_at(), "0000-01-01T00:00:00");
    let last = Timestamp::new(9999, 12, 31, 23, 59, 59).unwrap();
    assert_eq!(last.captured_at(), "9999-12-31T23:59:59");
    assert_eq!(last.image_file_name(), "235959.jpg");
}

#[test]
fn only_real_moments_are_made() {
    assert!(Timestamp::new(2024, 2, 29, 0, 0, 0).is_some());
    assert!(Timestamp::new(2023, 2, 29, 0, 0, 0).is_none());
    assert!(Timestamp::new(1900, 2, 29, 0, 0, 0).is_none());
    assert!(Timestamp::new(2000, 2, 29, 0, 0, 0).is_some());
    assert!(Timestamp::new(2024, 4, 31, 0, 0, 0).is_none());
    assert!(Timestamp::new(2024, 4, 30, 0, 0, 0).is_some());
    assert!(Timestamp::new(2024, 1, 31, 0, 0, 0).is_some());
    assert!(Timestamp::new(2024, 1, 32, 0, 0, 0).is_none());
    assert!(Timestamp::new(2024, 0, 1, 0, 0, 0).is_none());
    assert!(Timestamp::new(2024, 13, 1, 0, 0, 0).is_none());
    assert!(Timestamp::new(2024, 1, 0, 0, 0, 0).is_none());
    assert!(Timestamp::new(2024, 1, 1, 24, 0, 0).is_none());
    assert!(Timestamp::new(2024, 1, 1, 0, 60, 0).is_none());
    assert!(Timestamp::new(2024, 1, 1, 0, 0, 60).is_none());
    assert!(Timestamp::new(-1, 1, 1, 0, 0, 0).is_none());
    assert!(Timestamp::new(10000, 1, 1, 0, 0, 0).is_none());
}

#[test]
fn every_day_of_a_leap_year_is_rendered_by_its_fields() {
    let days = [31u32, 29, 31, 30, 31, 30, 31, 31, 30, 31, 30, 31];
    for (m, n) in days.iter().enumerate() {
        let month = m as u32 + 1;
        for day in 1..=*n {
            let moment = Timestamp::new(2024, month, day, 1, 2, 3).unwrap();
            assert_eq!(moment.date(), format!("2024-{:02}-{:02}", month, day));
        }
        assert!(Timestamp::new(2024, month, n + 1, 0, 0, 0).is_none());
    }
}
