//! The write path for completed focus sessions.
//!
//! A [`UsageInterval`] is the immutable record of one closed session. Its
//! start is never sampled directly: it is derived as `end - duration`, where
//! the duration was measured with the monotonic clock, so a long-held
//! wall-clock reference cannot drift into the record. A [`UsageLog`] is the
//! append-only store of such records that the read-side queries run against.

use vstd::prelude::*;

verus! {

/// One persisted usage record: which app was focused, from when to when
/// (wall-clock milliseconds since the epoch), and for how long
/// (milliseconds, measured monotonically).
#[derive(Debug, PartialEq)]
pub struct UsageInterval {
    pub app_name: String,
    pub start_time: u64,
    pub end_time: u64,
    pub duration: u64,
}

/// Mathematical image of a [`UsageInterval`].
#[verifier::ext_equal]
pub ghost struct IntervalModel {
    pub app_name: Seq<char>,
    pub start_time: u64,
    pub end_time: u64,
    pub duration: u64,
}

impl View for UsageInterval {
    type V = IntervalModel;

    open spec fn view(&self) -> IntervalModel {
        IntervalModel {
            app_name: self.app_name@,
            start_time: self.start_time,
            end_time: self.end_time,
            duration: self.duration,
        }
    }
}

/// The record built for a session that ended at `end_time` after running
/// for `duration`: its start is derived by the single subtraction.
pub open spec fn made_interval(app_name: Seq<char>, end_time: u64, duration: u64) -> IntervalModel
    recommends
        duration <= end_time,
{
    IntervalModel {
        app_name: app_name,
        start_time: (end_time - duration) as u64,
        end_time: end_time,
        duration: duration,
    }
}

/// An interval is internally consistent when its duration is exactly the
/// width of its wall-clock span.
pub open spec fn interval_wf(iv: IntervalModel) -> bool {
    iv.start_time + iv.duration == iv.end_time
}

/// Every record built by [`made_interval`] from a duration that fits below
/// its end time is internally consistent.
pub proof fn lemma_made_interval_wf(app_name: Seq<char>, end_time: u64, duration: u64)
    requires
        duration <= end_time,
    ensures
        interval_wf(made_interval(app_name, end_time, duration)),
        made_interval(app_name, end_time, duration).app_name == app_name,
        made_interval(app_name, end_time, duration).end_time == end_time,
        made_interval(app_name, end_time, duration).duration == duration,
{
}

/// The append-only store of completed usage intervals.
pub struct UsageLog {
    intervals: Vec<UsageInterval>,
}

impl View for UsageLog {
    type V = Seq<IntervalModel>;

    closed spec fn view(&self) -> Seq<IntervalModel> {
        self.intervals@.map_values(|iv: UsageInterval| iv@)
    }
}

impl UsageLog {
    /// An empty store.
    pub fn new() -> (log: UsageLog)
        ensures
            log@ == Seq::<IntervalModel>::empty(),
    {
        let log = UsageLog { intervals: Vec::new() };
        proof {
            assert(log@ =~= Seq::<IntervalModel>::empty());
        }
        log
    }

    /// How many intervals have been recorded.
    pub fn len(&self) -> (n: usize)
        ensures
            n == self@.len(),
    {
        self.intervals.len()
    }

    /// Read access to one recorded interval.
    pub fn get(&self, i: usize) -> (iv: &UsageInterval)
        requires
            i < self@.len(),
        ensures
            iv@ == self@[i as int],
    {
        &self.intervals[i]
    }
}

/// Appends one usage record to the store, deriving its start time from the
/// end time and the measured duration. The record is never mutated or
/// deleted afterwards.
pub fn insert_usage(log: &mut UsageLog, app_name: String, end_time: u64, duration: u64)
    requires
        duration <= end_time,
    ensures
        final(log)@ == old(log)@.push(made_interval(app_name@, end_time, duration)),
{
    let ghost name_view = app_name@;
    let iv = UsageInterval {
        app_name: app_name,
        start_time: end_time - duration,
        end_time: end_time,
        duration: duration,
    };
    proof {
        assert(iv@ == made_interval(name_view, end_time, duration));
    }
    log.intervals.push(iv);
    proof {
        assert(log@ =~= old(log)@.push(made_interval(name_view, end_time, duration)));
    }
}

} // verus!
