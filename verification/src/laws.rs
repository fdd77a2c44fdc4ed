//! The engine's guarantees, stated and proved over the transition models.
//!
//! Each proof function here is a law about the spec functions that the
//! tracker's and the queries' contracts are written against, so it holds
//! of every run of the executable code.

use vstd::prelude::*;

use crate::entry::EntryModel;
use crate::entry::GlobalIdleState;
use crate::entry::close_emission;
use crate::entry::default_entry;
use crate::entry::idled_next;
use crate::entry::resumed_next;
use crate::entry::snapshot_emission;
use crate::entry::snapshot_next;
use crate::flags::snapshot_activated;
use crate::flags::snapshot_decodes;
use crate::queries::in_window;
use crate::queries::sat_add;
use crate::queries::total_duration;
use crate::recorder::IntervalModel;
use crate::recorder::made_interval;
use crate::tracker::TrackerModel;
use crate::tracker::ensure_entry;
use crate::tracker::entry_at;
use crate::tracker::handle_index;
use crate::tracker::has_handle;
use crate::tracker::idled_emissions;
use crate::tracker::model_closed;
use crate::tracker::model_idled;
use crate::tracker::model_resumed;
use crate::tracker::model_snapshot;
use crate::tracker::tracker_wf;
use crate::tracker::unique_handles;

verus! {

/// The entry after a run of decoded snapshot bits for one toplevel,
/// applied oldest first; each step carries the monotonic reading at which
/// it arrived.
pub open spec fn run_snapshots(
    e: EntryModel,
    idle: GlobalIdleState,
    steps: Seq<(bool, u64)>,
) -> EntryModel
    decreases steps.len(),
{
    if steps.len() == 0 {
        e
    } else {
        snapshot_next(
            run_snapshots(e, idle, steps.drop_last()),
            steps.last().0,
            idle,
            steps.last().1,
        )
    }
}

/// Whether applying bit `b` to entry `e` closes a session and emits a
/// record: only a falling edge of an open, attributed session does.
pub open spec fn emits(e: EntryModel, b: bool) -> bool {
    e.activated && !b && e.focus_started_at is Some && e.app_identifier is Some
}

/// `emits` says exactly when a snapshot produces a record, whatever the
/// clock readings are.
pub proof fn lemma_emits_iff(e: EntryModel, b: bool, now_mono: u64, now_wall: u64)
    ensures
        emits(e, b) <==> snapshot_emission(e, b, now_mono, now_wall) is Some,
{
}

/// While every bit of a run's span is inactive, an entry that was
/// inactive stays inactive.
proof fn lemma_inactive_stays(
    e: EntryModel,
    idle: GlobalIdleState,
    steps: Seq<(bool, u64)>,
    i: int,
    j: int,
)
    requires
        0 <= i <= j <= steps.len(),
        !run_snapshots(e, idle, steps.take(i)).activated,
        forall|k: int| i <= k < j ==> !(#[trigger] steps[k]).0,
    ensures
        !run_snapshots(e, idle, steps.take(j)).activated,
    decreases j - i,
{
    if j > i {
        lemma_inactive_stays(e, idle, steps, i, j - 1);
        assert(steps.take(j).drop_last() =~= steps.take(j - 1));
        assert(steps.take(j).last() == steps[j - 1]);
    }
}

/// No double session: in any run of activation snapshots for one
/// toplevel, a record is emitted only on a falling edge of the stored
/// bit, and two emissions always have an active bit strictly between
/// them — at most one record per contiguous active run.
pub proof fn lemma_no_double_session(
    e: EntryModel,
    idle: GlobalIdleState,
    steps: Seq<(bool, u64)>,
    i: int,
    j: int,
)
    requires
        0 <= i < j < steps.len(),
        emits(run_snapshots(e, idle, steps.take(i)), steps[i].0),
        emits(run_snapshots(e, idle, steps.take(j)), steps[j].0),
    ensures
        exists|k: int| i < k < j && (#[trigger] steps[k]).0,
{
    if !(exists|k: int| i < k < j && (#[trigger] steps[k]).0) {
        let ei = run_snapshots(e, idle, steps.take(i));
        assert(!steps[i].0);
        assert(steps.take(i + 1).drop_last() =~= steps.take(i));
        assert(steps.take(i + 1).last() == steps[i]);
        assert(!run_snapshots(e, idle, steps.take(i + 1)).activated);
        assert(forall|k: int| i + 1 <= k < j ==> !(#[trigger] steps[k]).0);
        lemma_inactive_stays(e, idle, steps, i + 1, j);
        assert(run_snapshots(e, idle, steps.take(j)).activated);
        assert(false);
    }
}

/// Idle exclusion: a toplevel focused since `s` whose user goes idle at
/// `t1` and returns at `t2`, after which the window deactivates at `t3`,
/// yields exactly two records, of durations `t1 - s` and `t3 - t2`; the
/// idle span `[t1, t2)` is excluded, and together they cover the whole
/// active span minus that idle span.
pub proof fn lemma_idle_exclusion(
    e: EntryModel,
    s: u64,
    t1: u64,
    t2: u64,
    t3: u64,
    w1: u64,
    w3: u64,
)
    requires
        e.activated,
        e.focus_started_at == Some(s),
        e.app_identifier is Some,
        s <= t1 <= t2 <= t3,
        t1 <= w1,
        t3 <= w3,
    ensures
        ({
            let first = close_emission(e, t1, w1);
            let after_idle = idled_next(e);
            let after_resume = resumed_next(after_idle, t2);
            let second = snapshot_emission(after_resume, false, t3, w3);
            &&& first is Some
            &&& first->0.duration == t1 - s
            &&& after_idle.focus_started_at is None
            &&& after_resume.focus_started_at == Some(t2)
            &&& second is Some
            &&& second->0.duration == t3 - t2
            &&& first->0.duration + second->0.duration == (t3 - s) - (t2 - t1)
        }),
{
}

/// A registry slot whose session closes with an attributed record has
/// that record in the batch a global Idled notification emits.
proof fn lemma_idled_emissions_contains(
    s: Seq<(u64, EntryModel)>,
    i: int,
    now_mono: u64,
    now_wall: u64,
)
    requires
        0 <= i < s.len(),
        close_emission(s[i].1, now_mono, now_wall) is Some,
    ensures
        idled_emissions(s, now_mono, now_wall).contains(
            close_emission(s[i].1, now_mono, now_wall)->0,
        ),
    decreases s.len(),
{
    let iv = close_emission(s[i].1, now_mono, now_wall)->0;
    if i == s.len() - 1 {
        let rest = idled_emissions(s.drop_last(), now_mono, now_wall);
        assert(s.last() == s[i]);
        assert(rest.push(iv)[rest.len() as int] == iv);
    } else {
        assert(s.drop_last()[i] == s[i]);
        lemma_idled_emissions_contains(s.drop_last(), i, now_mono, now_wall);
        let sub = idled_emissions(s.drop_last(), now_mono, now_wall);
        let j = choose|j: int| 0 <= j < sub.len() && sub[j] == iv;
        match close_emission(s.last().1, now_mono, now_wall) {
            Some(last_iv) => {
                assert(sub.push(last_iv)[j] == iv);
            },
            None => {
                assert(sub[j] == iv);
            },
        }
    }
}

/// Idle exclusion, through the whole engine: for a toplevel whose session
/// has been open since `s`, the global Idled batch at `t1` carries its
/// record of duration `t1 - s`; after the Resumed at `t2` and a
/// deactivating snapshot at `t3`, exactly the record of duration
/// `t3 - t2` is emitted. The two records together cover the active span
/// minus the idle span, whatever else the registry holds.
pub proof fn lemma_idle_exclusion_batched(
    t: TrackerModel,
    handle: u64,
    name: Seq<char>,
    snapshot: Seq<u32>,
    s: u64,
    t1: u64,
    t2: u64,
    t3: u64,
    w1: u64,
    w3: u64,
)
    requires
        tracker_wf(t),
        has_handle(t.entries, handle),
        entry_at(t.entries, handle) == (EntryModel {
            app_identifier: Some(name),
            activated: true,
            focus_started_at: Some(s),
        }),
        snapshot_decodes(snapshot),
        !snapshot_activated(snapshot),
        s <= t1 <= t2 <= t3,
        t1 <= w1,
        t3 <= w3,
    ensures
        ({
            let after_idled = model_idled(t, t1, w1);
            let after_resumed = model_resumed(after_idled.0, t2);
            let last = model_snapshot(after_resumed, handle, snapshot, t3, w3);
            &&& after_idled.1.contains(made_interval(name, w1, (t1 - s) as u64))
            &&& last.1 == Some(made_interval(name, w3, (t3 - t2) as u64))
            &&& (t1 - s) + (t3 - t2) == (t3 - s) - (t2 - t1)
        }),
{
    let e0 = entry_at(t.entries, handle);
    let idx = handle_index(t.entries, handle);
    assert(0 <= idx < t.entries.len() && t.entries[idx].0 == handle);
    assert(close_emission(e0, t1, w1) == Some(made_interval(name, w1, (t1 - s) as u64)));
    lemma_idled_emissions_contains(t.entries, idx, t1, w1);

    let m1 = model_idled(t, t1, w1).0;
    let m2 = model_resumed(m1, t2);
    assert(m2.entries[idx] == (handle, resumed_next(idled_next(e0), t2)));
    assert(resumed_next(idled_next(e0), t2) == (EntryModel {
        app_identifier: Some(name),
        activated: true,
        focus_started_at: Some(t2),
    }));
    assert(has_handle(m2.entries, handle));
    assert(ensure_entry(m2.entries, handle) == m2.entries);
    let i3 = handle_index(m2.entries, handle);
    assert(0 <= i3 < m2.entries.len() && m2.entries[i3].0 == handle);
    if i3 != idx {
        assert(m2.entries[i3].0 == t.entries[i3].0);
        if i3 < idx {
            assert(t.entries[i3].0 != t.entries[idx].0);
        } else {
            assert(t.entries[idx].0 != t.entries[i3].0);
        }
    }
    assert(snapshot_emission(m2.entries[idx].1, false, t3, w3) == Some(
        made_interval(name, w3, (t3 - t2) as u64),
    ));
}

/// Deferred activation under idle: an activation that arrives while the
/// system is idle emits nothing and opens no session; the session opens
/// at the later resume reading, not backdated to the activation reading.
pub proof fn lemma_deferred_activation(t_act: u64, t_res: u64)
    ensures
        ({
            let fresh = default_entry();
            let deferred = snapshot_next(fresh, true, GlobalIdleState::Idle, t_act);
            &&& snapshot_emission(fresh, true, t_act, t_act) is None
            &&& deferred.activated
            &&& deferred.focus_started_at is None
            &&& resumed_next(deferred, t_res).focus_started_at == Some(t_res)
        }),
{
}

/// Close flushes: a window focused since `t0`, attributed to `name`, that
/// closes at `t1` yields exactly one record, of duration `t1 - t0` and
/// span `[w1 - (t1 - t0), w1)`, and its entry is evicted — a later event
/// for the same handle reads as a brand-new default entry.
pub proof fn lemma_close_flushes(
    t: TrackerModel,
    handle: u64,
    name: Seq<char>,
    t0: u64,
    t1: u64,
    w1: u64,
)
    requires
        tracker_wf(t),
        has_handle(t.entries, handle),
        entry_at(t.entries, handle) == (EntryModel {
            app_identifier: Some(name),
            activated: true,
            focus_started_at: Some(t0),
        }),
        t0 <= t1 <= w1,
    ensures
        ({
            let r = model_closed(t, handle, t1, w1);
            &&& r.1 == Some(made_interval(name, w1, (t1 - t0) as u64))
            &&& r.1->0.duration == t1 - t0
            &&& r.1->0.start_time + r.1->0.duration == w1
            &&& !has_handle(r.0.entries, handle)
            &&& entry_at(r.0.entries, handle) == default_entry()
        }),
{
    let s = t.entries;
    let idx = handle_index(s, handle);
    assert(0 <= idx < s.len() && s[idx].0 == handle);
    let s2 = s.remove(idx);
    assert(!has_handle(s2, handle)) by {
        if has_handle(s2, handle) {
            let k = choose|k: int| 0 <= k < s2.len() && s2[k].0 == handle;
            if k < idx {
                assert(s2[k] == s[k]);
                assert(unique_handles(s));
                assert(s[k].0 != s[idx].0);
            } else {
                assert(s2[k] == s[k + 1]);
                assert(s[idx].0 != s[k + 1].0);
            }
        }
    }
}

/// Unattributed drop: a session closing on an entry that never learned
/// its app identifier emits nothing — whether it closes by deactivation
/// or by a global idle — though the session itself still closes.
pub proof fn lemma_unattributed_drop(e: EntryModel, b: bool, now_mono: u64, now_wall: u64)
    requires
        e.app_identifier is None,
    ensures
        close_emission(e, now_mono, now_wall) is None,
        snapshot_emission(e, b, now_mono, now_wall) is None,
        idled_next(e).focus_started_at is None,
{
}

/// Idempotent no-op: a snapshot whose bit matches the entry's stored bit
/// neither changes the entry nor emits; in particular, repeating any
/// snapshot bit twice in a row leaves the second application without
/// effect, whatever the clock readings.
pub proof fn lemma_idempotent_snapshot(
    e: EntryModel,
    b: bool,
    idle: GlobalIdleState,
    n1: u64,
    n2: u64,
    w2: u64,
)
    ensures
        e.activated == b ==> snapshot_next(e, b, idle, n1) == e,
        e.activated == b ==> snapshot_emission(e, b, n1, w2) is None,
        ({
            let once = snapshot_next(e, b, idle, n1);
            &&& snapshot_next(once, b, idle, n2) == once
            &&& snapshot_emission(once, b, n2, w2) is None
        }),
{
}

/// The records for one app recorded within `[start, end)`, in order.
pub open spec fn window_records(
    ivs: Seq<IntervalModel>,
    app: Seq<char>,
    window: (u64, u64),
) -> Seq<IntervalModel>
    decreases ivs.len(),
{
    if ivs.len() == 0 {
        Seq::empty()
    } else {
        let rest = window_records(ivs.drop_last(), app, window);
        if ivs.last().app_name == app && in_window(ivs.last(), Some(window)) {
            rest.push(ivs.last())
        } else {
            rest
        }
    }
}

/// The clamped sum of the durations of a batch of records.
pub open spec fn sum_durations(ivs: Seq<IntervalModel>) -> u64
    decreases ivs.len(),
{
    if ivs.len() == 0 {
        0
    } else {
        sat_add(sum_durations(ivs.drop_last()), ivs.last().duration)
    }
}

/// Round-trip aggregate: summing the durations of exactly the records
/// for app X recorded within `[start, end)` equals what the per-app
/// window query reports for `(X, start, end)`.
pub proof fn lemma_aggregate_round_trip(
    ivs: Seq<IntervalModel>,
    app: Seq<char>,
    start: u64,
    end: u64,
)
    ensures
        sum_durations(window_records(ivs, app, (start, end))) == total_duration(
            ivs,
            Some(app),
            Some((start, end)),
        ),
    decreases ivs.len(),
{
    if ivs.len() > 0 {
        lemma_aggregate_round_trip(ivs.drop_last(), app, start, end);
        let sub = window_records(ivs.drop_last(), app, (start, end));
        assert(sub.push(ivs.last()).drop_last() =~= sub);
        assert(sub.push(ivs.last()).last() == ivs.last());
    }
}

} // verus!
