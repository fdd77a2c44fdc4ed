//! The usage store: recording intervals and the aggregate queries.

use wayland_appusage::queries::{
    get_data_for_app_and_time, get_data_for_time, get_total_app_usage, list_apps,
};
use wayland_appusage::recorder::{insert_usage, UsageLog};

fn sample_log() -> UsageLog {
    let mut log = UsageLog::new();
    // (app, end, duration) => start = end - duration
    insert_usage(&mut log, "term".to_string(), 1_000, 400); // start 600
    insert_usage(&mut log, "web".to_string(), 2_000, 500); // start 1500
    insert_usage(&mut log, "term".to_string(), 3_000, 100); // start 2900
    insert_usage(&mut log, "mail".to_string(), 10_000, 1_000); // start 9000
    log
}

#[test]
fn insert_derives_start_from_end_and_duration() {
    let mut log = UsageLog::new();
    assert_eq!(log.len(), 0);
    insert_usage(&mut log, "term".to_string(), 5_000, 1_200);
    assert_eq!(log.len(), 1);
    let iv = log.get(0);
    assert_eq!(iv.app_name, "term");
    assert_eq!(iv.start_time, 3_800);
    assert_eq!(iv.end_time, 5_000);
    assert_eq!(iv.duration, 1_200);
}

#[test]
fn per_app_window_total() {
    let log = sample_log();
    // window selects by recorded start time, end-exclusive
    assert_eq!(get_data_for_app_and_time(&log, "term".to_string(), (600, 2_900)), 400);
    assert_eq!(get_data_for_app_and_time(&log, "term".to_string(), (600, 2_901)), 500);
    assert_eq!(get_data_for_app_and_time(&log, "term".to_string(), (601, 5_000)), 100);
    assert_eq!(get_data_for_app_and_time(&log, "none".to_string(), (0, 100_000)), 0);
}

#[test]
fn per_app_all_time_total() {
    let log = sample_log();
    assert_eq!(get_total_app_usage(&log, "term".to_string()), 500);
    assert_eq!(get_total_app_usage(&log, "web".to_string()), 500);
    assert_eq!(get_total_app_usage(&log, "mail".to_string()), 1_000);
    assert_eq!(get_total_app_usage(&log, "none".to_string()), 0);
}

#[test]
fn window_total_across_apps() {
    let log = sample_log();
    assert_eq!(get_data_for_time(&log, (0, 100_000)), 2_000);
    assert_eq!(get_data_for_time(&log, (600, 1_501)), 900);
    assert_eq!(get_data_for_time(&log, (9_001, 100_000)), 0);
}

#[test]
fn totals_clamp_instead_of_wrapping() {
    let mut log = UsageLog::new();
    insert_usage(&mut log, "big".to_string(), u64::MAX, u64::MAX - 7);
    insert_usage(&mut log, "big".to_string(), u64::MAX, 100);
    assert_eq!(get_total_app_usage(&log, "big".to_string()), u64::MAX);
}

#[test]
fn list_apps_groups_and_sorts() {
    let log = sample_log();
    let rows = list_apps(&log, None);
    assert_eq!(rows.len(), 3);
    assert_eq!(rows[0], ("mail".to_string(), 1_000));
    // term and web tie at 500; both must be there, in some order
    let names: Vec<&str> = rows.iter().map(|r| r.0.as_str()).collect();
    assert!(names.contains(&"term"));
    assert!(names.contains(&"web"));
    assert_eq!(rows[1].1, 500);
    assert_eq!(rows[2].1, 500);
}

#[test]
fn list_apps_respects_the_window() {
    let log = sample_log();
    let rows = list_apps(&log, Some((600, 1_501)));
    assert_eq!(rows.len(), 2);
    assert_eq!(rows[0], ("web".to_string(), 500));
    assert_eq!(rows[1], ("term".to_string(), 400));
}

#[test]
fn list_apps_on_empty_log() {
    let log = UsageLog::new();
    assert!(list_apps(&log, None).is_empty());
    assert!(list_apps(&log, Some((0, 10))).is_empty());
}

#[test]
fn aggregate_round_trip() {
    let log = sample_log();
    let (start, end) = (600u64, 2_901u64);
    // sum by hand over exactly the records for "term" recorded in the window
    let mut by_hand: u64 = 0;
    for i in 0..log.len() {
        let iv = log.get(i);
        if iv.app_name == "term" && start <= iv.start_time && iv.start_time < end {
            by_hand += iv.duration;
        }
    }
    assert_eq!(by_hand, get_data_for_app_and_time(&log, "term".to_string(), (start, end)));
}
