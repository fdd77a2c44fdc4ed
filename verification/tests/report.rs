//! Time-range selection and the weekly report.

use wayland_appusage::recorder::{insert_usage, UsageLog};
use wayland_appusage::report::{get_week_data, weekday_name, AppListTime, MILLIS_PER_DAY};

const DAY: u64 = MILLIS_PER_DAY;

#[test]
fn next_narrows_and_stops_at_today() {
    assert_eq!(AppListTime::AllTime.next(), AppListTime::ThisMonth);
    assert_eq!(AppListTime::ThisMonth.next(), AppListTime::ThisWeek);
    assert_eq!(AppListTime::ThisWeek.next(), AppListTime::Today);
    assert_eq!(AppListTime::Today.next(), AppListTime::Today);
}

#[test]
fn prev_widens_and_stops_at_all_time() {
    assert_eq!(AppListTime::Today.prev(), AppListTime::ThisWeek);
    assert_eq!(AppListTime::ThisWeek.prev(), AppListTime::ThisMonth);
    assert_eq!(AppListTime::ThisMonth.prev(), AppListTime::AllTime);
    assert_eq!(AppListTime::AllTime.prev(), AppListTime::AllTime);
}

#[test]
fn default_range_is_today() {
    assert_eq!(AppListTime::default(), AppListTime::Today);
}

#[test]
fn timestamps_select_the_documented_windows() {
    let start = 20_000 * DAY;
    let end = start + DAY;
    assert_eq!(AppListTime::Today.timestamps(start), Some((start, end)));
    assert_eq!(AppListTime::ThisWeek.timestamps(start), Some((end - 7 * DAY, end)));
    assert_eq!(AppListTime::ThisMonth.timestamps(start), Some((end - 28 * DAY, end)));
    assert_eq!(AppListTime::AllTime.timestamps(start), None);
}

#[test]
fn labels() {
    assert_eq!(AppListTime::Today.label(), "Today");
    assert_eq!(AppListTime::ThisWeek.label(), "Last Week");
    assert_eq!(AppListTime::ThisMonth.label(), "Last Month");
    assert_eq!(AppListTime::AllTime.label(), "All Time");
}

#[test]
fn weekday_names_match_the_calendar() {
    // day zero of the epoch was a Thursday
    assert_eq!(weekday_name(0), "Thu");
    assert_eq!(weekday_name(DAY - 1), "Thu");
    assert_eq!(weekday_name(DAY), "Fri");
    assert_eq!(weekday_name(4 * DAY), "Mon");
    // day 19723 of the epoch was Monday, 2024-01-01
    assert_eq!(weekday_name(19_723 * DAY), "Mon");
    assert_eq!(weekday_name(19_723 * DAY + 12 * 3_600_000), "Mon");
}

#[test]
fn week_data_totals_one_row_per_day() {
    let start_of_today = 10 * DAY;
    let mut log = UsageLog::new();
    // a record lands in the day its derived start falls in
    insert_usage(&mut log, "term".to_string(), 10 * DAY + 2_000, 500); // today
    insert_usage(&mut log, "term".to_string(), 9 * DAY + 5_000, 700); // yesterday
    insert_usage(&mut log, "web".to_string(), 4 * DAY + 9_000, 300); // six days ago
    insert_usage(&mut log, "web".to_string(), 3 * DAY + 9_000, 900); // before the week
    let rows = get_week_data(&log, start_of_today);
    assert_eq!(rows.len(), 7);
    assert_eq!(rows[0], ("Sun".to_string(), 500));
    assert_eq!(rows[1], ("Sat".to_string(), 700));
    assert_eq!(rows[2], ("Fri".to_string(), 0));
    assert_eq!(rows[3], ("Thu".to_string(), 0));
    assert_eq!(rows[4], ("Wed".to_string(), 0));
    assert_eq!(rows[5], ("Tue".to_string(), 0));
    assert_eq!(rows[6], ("Mon".to_string(), 300));
}
