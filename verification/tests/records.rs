use logtail::models::logs::{Log, Logs};

#[test]
fn log_new_keeps_what_it_is_given() {
    let log = Log::new(Some(5), "text");
    assert_eq!(log.message, "text");
    assert_eq!(log.timestamp_nanos, Some(5));
    let log = Log::new(None, "");
    assert_eq!(log.message, "");
    assert_eq!(log.timestamp_nanos, None);
}

#[test]
fn the_timestamp_of_a_line_is_read_in_nanoseconds() {
    let log = Log::from_str("2024-01-01T00:00:00Z hello");
    assert_eq!(log.message, "2024-01-01T00:00:00Z hello");
    assert_eq!(log.timestamp_nanos, Some(1_704_067_200_000_000_000));
}

#[test]
fn the_timestamp_may_stand_anywhere_in_the_line() {
    let log = Log::from_str("level=info ts=1970-01-01T00:00:01Z msg=up");
    assert_eq!(log.message, "level=info ts=1970-01-01T00:00:01Z msg=up");
    assert_eq!(log.timestamp_nanos, Some(1_000_000_000));
}

#[test]
fn a_timestamp_before_the_epoch_is_negative() {
    let log = Log::from_str("1969-12-31T23:59:59Z");
    assert_eq!(log.timestamp_nanos, Some(-1_000_000_000));
}

#[test]
fn a_line_without_timestamp_is_kept_without_one() {
    let log = Log::from_str("plain text without a date");
    assert_eq!(log.message, "plain text without a date");
    assert_eq!(log.timestamp_nanos, None);
    assert_eq!(Log::from_str("").timestamp_nanos, None);
}

#[test]
fn what_only_looks_like_a_timestamp_is_none() {
    assert_eq!(Log::from_str("2024-13-45T99:99:99Z boom").timestamp_nanos, None);
    assert_eq!(Log::from_str("2023-02-29T10:00:00Z no such day").timestamp_nanos, None);
}

#[test]
fn the_first_match_decides() {
    let log = Log::from_str("2024-13-01T00:00:00Z then 2024-01-01T00:00:00Z");
    assert_eq!(log.timestamp_nanos, None);
    let log = Log::from_str("1970-01-01T00:00:02Z then 2024-01-01T00:00:00Z");
    assert_eq!(log.timestamp_nanos, Some(2_000_000_000));
}

#[test]
fn other_shapes_of_a_date_do_not_count() {
    assert_eq!(Log::from_str("2024-01-01 00:00:00Z").timestamp_nanos, None);
    assert_eq!(Log::from_str("2024-01-01T00:00:00").timestamp_nanos, None);
    assert_eq!(Log::from_str("2024-1-1T0:0:0Z").timestamp_nanos, None);
    assert_eq!(Log::from_str("2024-01-01T00:00:00+01:00").timestamp_nanos, None);
}

#[test]
fn a_moment_that_does_not_fit_is_none() {
    assert_eq!(Log::from_str("9999-01-01T00:00:00Z").timestamp_nanos, None);
    assert_eq!(
        Log::from_str("2262-04-11T23:47:16Z").timestamp_nanos,
        Some(9_223_372_036_000_000_000)
    );
    assert_eq!(Log::from_str("2262-04-11T23:47:17Z").timestamp_nanos, None);
}

#[test]
fn a_batch_has_one_record_per_line_in_order() {
    let lines = vec![
        "2024-01-01T00:00:00Z first".to_string(),
        "second has no date".to_string(),
        "third 1970-01-01T00:00:03Z".to_string(),
    ];
    let batch = Logs::from_lines_at(lines, 77);
    assert_eq!(batch.system_time_nanoseconds, 77);
    let records: Vec<(String, Option<i64>)> =
        batch.logs.iter().map(|log| (log.message.clone(), log.timestamp_nanos)).collect();
    assert_eq!(
        records,
        vec![
            ("2024-01-01T00:00:00Z first".to_string(), Some(1_704_067_200_000_000_000)),
            ("second has no date".to_string(), None),
            ("third 1970-01-01T00:00:03Z".to_string(), Some(3_000_000_000)),
        ]
    );
}

#[test]
fn a_batch_of_no_lines_is_empty() {
    let batch = Logs::from_lines_at(Vec::new(), 0);
    assert_eq!(batch.system_time_nanoseconds, 0);
    assert!(batch.logs.is_empty());
}

#[test]
fn a_batch_is_stamped_with_the_present() {
    let batch = Logs::from_lines(vec!["x".to_string(), "y".to_string()]);
    // 2024-01-01 in nanoseconds since the epoch
    assert!(batch.system_time_nanoseconds > 1_704_067_200_000_000_000);
    assert_eq!(batch.logs.len(), 2);
    assert_eq!(batch.logs[0].message, "x");
    assert_eq!(batch.logs[1].message, "y");
}
