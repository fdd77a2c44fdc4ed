//! Time-range selection and the weekly figures a dashboard shows.
//!
//! The surrounding program samples the local calendar once — the start of
//! the current day, as wall-clock milliseconds since the epoch — and
//! everything here is plain arithmetic on that reading: the `[start, end)`
//! window of each selectable range, the weekday label of a day, and the
//! per-day totals of the past week.

use vstd::prelude::*;
use vstd::string::StringExecFns;

use crate::queries::get_data_for_time;
use crate::queries::total_duration;
use crate::recorder::UsageLog;

verus! {

/// Milliseconds in one day.
pub const MILLIS_PER_DAY: u64 = 86400000;

/// The time ranges the dashboard can page through.
#[derive(Clone, Copy, PartialEq, Eq, Structural, Debug)]
pub enum AppListTime {
    Today,
    ThisWeek,
    ThisMonth,
    AllTime,
}

impl Default for AppListTime {
    /// The range first shown.
    fn default() -> (t: AppListTime)
        ensures
            t == AppListTime::Today,
    {
        AppListTime::Today
    }
}

/// The window a range selects, relative to the start of the current day:
/// today; the seven days ending today; the twenty-eight days ending
/// today; or no window at all.
pub open spec fn spec_timestamps(t: AppListTime, start_of_today: u64) -> Option<(u64, u64)> {
    let end_of_today = start_of_today + MILLIS_PER_DAY;
    match t {
        AppListTime::Today => Some((start_of_today, end_of_today as u64)),
        AppListTime::ThisWeek => Some(
            ((end_of_today - 7 * MILLIS_PER_DAY) as u64, end_of_today as u64),
        ),
        AppListTime::ThisMonth => Some(
            ((end_of_today - 28 * MILLIS_PER_DAY) as u64, end_of_today as u64),
        ),
        AppListTime::AllTime => None,
    }
}

impl AppListTime {
    /// One step towards the narrowest range, stopping at `Today`.
    pub fn next(&self) -> (t: AppListTime)
        ensures
            t == (match self {
                AppListTime::Today => AppListTime::Today,
                AppListTime::ThisWeek => AppListTime::Today,
                AppListTime::ThisMonth => AppListTime::ThisWeek,
                AppListTime::AllTime => AppListTime::ThisMonth,
            }),
    {
        match self {
            AppListTime::Today => AppListTime::Today,
            AppListTime::ThisWeek => AppListTime::Today,
            AppListTime::ThisMonth => AppListTime::ThisWeek,
            AppListTime::AllTime => AppListTime::ThisMonth,
        }
    }

    /// One step towards the widest range, stopping at `AllTime`.
    pub fn prev(&self) -> (t: AppListTime)
        ensures
            t == (match self {
                AppListTime::Today => AppListTime::ThisWeek,
                AppListTime::ThisWeek => AppListTime::ThisMonth,
                AppListTime::ThisMonth => AppListTime::AllTime,
                AppListTime::AllTime => AppListTime::AllTime,
            }),
    {
        match self {
            AppListTime::Today => AppListTime::ThisWeek,
            AppListTime::ThisWeek => AppListTime::ThisMonth,
            AppListTime::ThisMonth => AppListTime::AllTime,
            AppListTime::AllTime => AppListTime::AllTime,
        }
    }

    /// The `[start, end)` wall-clock window this range selects, given the
    /// start of the current day; `None` selects all time. The bounds keep
    /// every window inside the unsigned range.
    pub fn timestamps(&self, start_of_today: u64) -> (r: Option<(u64, u64)>)
        requires
            27 * MILLIS_PER_DAY <= start_of_today,
            start_of_today + MILLIS_PER_DAY <= u64::MAX,
        ensures
            r == spec_timestamps(*self, start_of_today),
    {
        let end_of_today = start_of_today + MILLIS_PER_DAY;
        match self {
            AppListTime::Today => Some((start_of_today, end_of_today)),
            AppListTime::ThisWeek => Some((end_of_today - 7 * MILLIS_PER_DAY, end_of_today)),
            AppListTime::ThisMonth => Some((end_of_today - 28 * MILLIS_PER_DAY, end_of_today)),
            AppListTime::AllTime => None,
        }
    }

    /// The label the dashboard shows for this range.
    pub fn label(&self) -> (name: String)
        ensures
            name@ == (match self {
                AppListTime::Today => "Today"@,
                AppListTime::ThisWeek => "Last Week"@,
                AppListTime::ThisMonth => "Last Month"@,
                AppListTime::AllTime => "All Time"@,
            }),
    {
        match self {
            AppListTime::Today => String::from_str("Today"),
            AppListTime::ThisWeek => String::from_str("Last Week"),
            AppListTime::ThisMonth => String::from_str("Last Month"),
            AppListTime::AllTime => String::from_str("All Time"),
        }
    }
}

/// Day-of-week index of a wall-clock reading, 0 for Monday through 6 for
/// Sunday (day zero of the epoch was a Thursday).
pub open spec fn spec_weekday_index(ms: u64) -> int {
    ((ms / MILLIS_PER_DAY) + 3) % 7
}

/// The short weekday label of the day a reading falls in.
pub open spec fn spec_weekday_name(ms: u64) -> Seq<char> {
    let idx = spec_weekday_index(ms);
    if idx == 0 {
        "Mon"@
    } else if idx == 1 {
        "Tue"@
    } else if idx == 2 {
        "Wed"@
    } else if idx == 3 {
        "Thu"@
    } else if idx == 4 {
        "Fri"@
    } else if idx == 5 {
        "Sat"@
    } else {
        "Sun"@
    }
}

/// The short weekday label of the day a wall-clock reading falls in.
pub fn weekday_name(ms: u64) -> (name: String)
    ensures
        name@ == spec_weekday_name(ms),
{
    let idx = (ms / MILLIS_PER_DAY + 3) % 7;
    let label: &str = if idx == 0 {
        "Mon"
    } else if idx == 1 {
        "Tue"
    } else if idx == 2 {
        "Wed"
    } else if idx == 3 {
        "Thu"
    } else if idx == 4 {
        "Fri"
    } else {
        if idx == 5 {
            "Sat"
        } else {
            "Sun"
        }
    };
    String::from_str(label)
}

/// One row per day of the past week, most recent day first: the day's
/// weekday label and the total duration recorded within it.
pub fn get_week_data(log: &UsageLog, start_of_today: u64) -> (rows: Vec<(String, u64)>)
    requires
        6 * MILLIS_PER_DAY <= start_of_today,
        start_of_today + MILLIS_PER_DAY <= u64::MAX,
    ensures
        rows@.len() == 7,
        forall|k: int|
            0 <= k < 7 ==> {
                let day_start = (start_of_today - k * MILLIS_PER_DAY) as u64;
                &&& (#[trigger] rows@[k]).0@ == spec_weekday_name(day_start)
                &&& rows@[k].1 == total_duration(
                    log@,
                    None::<Seq<char>>,
                    Some((day_start, (day_start + MILLIS_PER_DAY) as u64)),
                )
            },
{
    let mut rows: Vec<(String, u64)> = Vec::new();
    let mut i: u64 = 0;
    while i < 7
        invariant
            6 * MILLIS_PER_DAY <= start_of_today,
            start_of_today + MILLIS_PER_DAY <= u64::MAX,
            i <= 7,
            rows@.len() == i,
            forall|k: int|
                0 <= k < i ==> {
                    let day_start = (start_of_today - k * MILLIS_PER_DAY) as u64;
                    &&& (#[trigger] rows@[k]).0@ == spec_weekday_name(day_start)
                    &&& rows@[k].1 == total_duration(
                        log@,
                        None::<Seq<char>>,
                        Some((day_start, (day_start + MILLIS_PER_DAY) as u64)),
                    )
                },
        decreases 7 - i,
    {
        let day_start = start_of_today - i * MILLIS_PER_DAY;
        let day_end = day_start + MILLIS_PER_DAY;
        let name = weekday_name(day_start);
        let total = get_data_for_time(log, (day_start, day_end));
        rows.push((name, total));
        i = i + 1;
    }
    rows
}

} // verus!
