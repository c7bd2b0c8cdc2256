use logtail::models::config::{
    default_buffersize, default_forward_frequency_ms, default_loglevel, default_scan_existing,
};
use logtail::utils::{datetime_str_at, file_exists, get_datetime_str, get_unix_time_ms};
use std::time::{SystemTime, UNIX_EPOCH};

fn seconds_now() -> u64 {
    SystemTime::now().duration_since(UNIX_EPOCH).expect("a clock behind 1970").as_secs()
}

#[test]
fn unix_time_is_in_milliseconds() {
    let now = get_unix_time_ms();
    // between 2024-01-01 and 2100-01-01
    assert!(now > 1_704_067_200_000);
    assert!(now < 4_102_444_800_000);
}

#[test]
fn unix_time_does_not_run_backwards_much() {
    let first = get_unix_time_ms();
    let second = get_unix_time_ms();
    assert!(second + 60_000 > first);
}

#[test]
fn datetime_is_date_then_time() {
    let text = get_datetime_str();
    let bytes = text.as_bytes();
    assert_eq!(bytes.len(), 19);
    assert_eq!(bytes[4], b'-');
    assert_eq!(bytes[7], b'-');
    assert_eq!(bytes[10], b' ');
    assert_eq!(bytes[13], b':');
    assert_eq!(bytes[16], b':');
    let year: u32 = text[0..4].parse().expect("a year");
    let month: u32 = text[5..7].parse().expect("a month");
    let day: u32 = text[8..10].parse().expect("a day");
    let hour: u32 = text[11..13].parse().expect("an hour");
    let minute: u32 = text[14..16].parse().expect("a minute");
    let second: u32 = text[17..19].parse().expect("a second");
    assert!(year >= 2024);
    assert!((1..=12).contains(&month));
    assert!((1..=31).contains(&day));
    assert!(hour < 24);
    assert!(minute < 60);
    assert!(second < 61);
}

#[test]
fn the_root_directory_exists() {
    assert!(file_exists("/"));
}

#[test]
fn a_path_that_is_not_there_does_not_exist() {
    assert!(!file_exists("/this/path/is/not/there.log"));
    assert!(!file_exists(""));
}

#[test]
fn defaults_of_the_configuration() {
    assert_eq!(default_loglevel(), "warn");
    assert_eq!(default_buffersize(), 1_000_000);
    assert_eq!(default_forward_frequency_ms(), 5000);
    assert!(!default_scan_existing());
}

#[test]
fn datetime_is_the_present_second_as_it_is_written() {
    let before = seconds_now();
    let text = get_datetime_str();
    let after = seconds_now();
    assert!((before..=after).any(|secs| datetime_str_at(secs) == text));
}
