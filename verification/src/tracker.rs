//! The toplevel registry, the focus state machine and the idle coordinator.
//!
//! A [`Tracker`] owns one [`ToplevelEntry`](crate::entry::ToplevelEntry) per
//! known window handle, plus the process-wide idle flag. Events arrive
//! strictly in order from a single stream; each method applies one event
//! atomically and hands back the usage records it completed, for the caller
//! to persist. The ghost [`TrackerModel`] and the `model_*` spec functions
//! say exactly what every event does; each method's contract is an equality
//! against them.

use vstd::prelude::*;

use crate::entry::EntryModel;
use crate::entry::GlobalIdleState;
use crate::entry::ToplevelEntry;
use crate::entry::close_emission;
use crate::entry::close_entry;
use crate::entry::default_entry;
use crate::entry::entry_wf;
use crate::entry::idled_next;
use crate::entry::resumed_next;
use crate::entry::snapshot_emission;
use crate::entry::snapshot_next;
use crate::flags::parse_activation;
use crate::flags::snapshot_activated;
use crate::flags::snapshot_decodes;
use crate::recorder::IntervalModel;
use crate::recorder::UsageInterval;

verus! {

/// Mathematical image of a [`Tracker`]: the registry contents in order,
/// the idle flag, and the latest monotonic reading the engine has seen.
#[verifier::ext_equal]
pub ghost struct TrackerModel {
    pub entries: Seq<(u64, EntryModel)>,
    pub idle: GlobalIdleState,
    pub last_now: u64,
}

/// Whether some registry slot is keyed by `handle`.
pub open spec fn has_handle(s: Seq<(u64, EntryModel)>, handle: u64) -> bool {
    exists|i: int| 0 <= i < s.len() && s[i].0 == handle
}

/// The slot keyed by `handle` (meaningful when the handle is present and
/// the registry keys are unique).
pub open spec fn handle_index(s: Seq<(u64, EntryModel)>, handle: u64) -> int {
    choose|i: int| 0 <= i < s.len() && s[i].0 == handle
}

/// The entry a handle currently maps to; a handle never seen is read as a
/// default entry, never as an error.
pub open spec fn entry_at(s: Seq<(u64, EntryModel)>, handle: u64) -> EntryModel {
    if has_handle(s, handle) {
        s[handle_index(s, handle)].1
    } else {
        default_entry()
    }
}

/// No two registry slots share a handle.
pub open spec fn unique_handles(s: Seq<(u64, EntryModel)>) -> bool {
    forall|i: int, j: int|
        #![trigger s[i], s[j]]
        0 <= i < j < s.len() ==> s[i].0 != s[j].0
}

/// Engine well-formedness: unique registry keys, and every entry satisfies
/// the per-entry invariant against the global flag and clock.
pub open spec fn tracker_wf(t: TrackerModel) -> bool {
    &&& unique_handles(t.entries)
    &&& forall|i: int|
        0 <= i < t.entries.len() ==> #[trigger] entry_wf(t.entries[i].1, t.idle, t.last_now)
}

/// The registry after making sure `handle` has a slot: the first event
/// that references a handle creates a default entry for it.
pub open spec fn ensure_entry(s: Seq<(u64, EntryModel)>, handle: u64) -> Seq<(u64, EntryModel)> {
    if has_handle(s, handle) {
        s
    } else {
        s.push((handle, default_entry()))
    }
}

/// The registry after evicting `handle`, unconditionally; a handle not
/// present changes nothing.
pub open spec fn remove_handle(s: Seq<(u64, EntryModel)>, handle: u64) -> Seq<(u64, EntryModel)> {
    if has_handle(s, handle) {
        s.remove(handle_index(s, handle))
    } else {
        s
    }
}

/// The engine after an app-identifier event: the entry's label is set (and
/// the entry created first if need be); there are no session side effects.
pub open spec fn model_set_app_identifier(t: TrackerModel, handle: u64, name: Seq<char>) -> TrackerModel {
    let s = ensure_entry(t.entries, handle);
    let i = handle_index(s, handle);
    let e = s[i].1;
    TrackerModel {
        entries: s.update(
            i,
            (
                handle,
                EntryModel {
                    app_identifier: Some(name),
                    activated: e.activated,
                    focus_started_at: e.focus_started_at,
                },
            ),
        ),
        idle: t.idle,
        last_now: t.last_now,
    }
}

/// The engine after one full activation snapshot for `handle`, and the
/// record that snapshot emits. An undecodable snapshot leaves activation
/// unchanged and emits nothing; a decodable one replaces the entry's bit
/// with the snapshot's OR-reduced "activated" flag, with the session rules
/// of [`snapshot_next`].
pub open spec fn model_snapshot(
    t: TrackerModel,
    handle: u64,
    snapshot: Seq<u32>,
    now_mono: u64,
    now_wall: u64,
) -> (TrackerModel, Option<IntervalModel>) {
    let s = ensure_entry(t.entries, handle);
    let i = handle_index(s, handle);
    let e = s[i].1;
    if snapshot_decodes(snapshot) {
        let active = snapshot_activated(snapshot);
        (
            TrackerModel {
                entries: s.update(i, (handle, snapshot_next(e, active, t.idle, now_mono))),
                idle: t.idle,
                last_now: now_mono,
            },
            snapshot_emission(e, active, now_mono, now_wall),
        )
    } else {
        (TrackerModel { entries: s, idle: t.idle, last_now: now_mono }, None)
    }
}

/// The engine after a Closed event: any open session for the handle is
/// flushed exactly as on deactivation, then the entry is removed.
pub open spec fn model_closed(
    t: TrackerModel,
    handle: u64,
    now_mono: u64,
    now_wall: u64,
) -> (TrackerModel, Option<IntervalModel>) {
    (
        TrackerModel { entries: remove_handle(t.entries, handle), idle: t.idle, last_now: now_mono },
        close_emission(entry_at(t.entries, handle), now_mono, now_wall),
    )
}

/// The records a global Idled notification emits: for every entry in
/// registry order, the closing record of its open session, when it has one
/// and is attributed.
pub open spec fn idled_emissions(
    s: Seq<(u64, EntryModel)>,
    now_mono: u64,
    now_wall: u64,
) -> Seq<IntervalModel>
    decreases s.len(),
{
    if s.len() == 0 {
        Seq::empty()
    } else {
        let rest = idled_emissions(s.drop_last(), now_mono, now_wall);
        match close_emission(s.last().1, now_mono, now_wall) {
            Some(iv) => rest.push(iv),
            None => rest,
        }
    }
}

/// The engine after a global Idled notification: the flag goes Idle, every
/// open session is closed and flushed in one batch, and everything else
/// (notably a deferred `activated` bit) stays.
pub open spec fn model_idled(t: TrackerModel, now_mono: u64, now_wall: u64) -> (
    TrackerModel,
    Seq<IntervalModel>,
) {
    (
        TrackerModel {
            entries: t.entries.map_values(|p: (u64, EntryModel)| (p.0, idled_next(p.1))),
            idle: GlobalIdleState::Idle,
            last_now: now_mono,
        },
        idled_emissions(t.entries, now_mono, now_wall),
    )
}

/// The engine after a global Resumed notification: the flag goes Active
/// and every activated entry gets a fresh session starting now.
pub open spec fn model_resumed(t: TrackerModel, now_mono: u64) -> TrackerModel {
    TrackerModel {
        entries: t.entries.map_values(|p: (u64, EntryModel)| (p.0, resumed_next(p.1, now_mono))),
        idle: GlobalIdleState::Active,
        last_now: now_mono,
    }
}

/// The ghost image of an optional emitted record.
pub open spec fn opt_interval_view(r: Option<UsageInterval>) -> Option<IntervalModel> {
    match r {
        Some(iv) => Some(iv@),
        None => None,
    }
}

/// An optional emitted record as a batch of zero or one.
pub open spec fn opt_emissions(r: Option<IntervalModel>) -> Seq<IntervalModel> {
    match r {
        Some(iv) => seq![iv],
        None => Seq::empty(),
    }
}

/// One notification from the single ordered event stream the engine
/// consumes: the three per-window lifecycle events and the two global
/// power-state events.
pub enum TrackerEvent {
    /// The window's app label became known (or changed).
    AppIdentifier { handle: u64, app_identifier: String },
    /// A fresh full state snapshot for the window, as raw flag values.
    ActivationSnapshot { handle: u64, snapshot: Vec<u32> },
    /// The window was closed.
    Closed { handle: u64 },
    /// The user has been away past the idle threshold.
    Idled,
    /// The user has returned.
    Resumed,
}

/// Mathematical image of a [`TrackerEvent`].
#[verifier::ext_equal]
pub ghost enum EventModel {
    AppIdentifier { handle: u64, app_identifier: Seq<char> },
    ActivationSnapshot { handle: u64, snapshot: Seq<u32> },
    Closed { handle: u64 },
    Idled,
    Resumed,
}

impl View for TrackerEvent {
    type V = EventModel;

    open spec fn view(&self) -> EventModel {
        match self {
            TrackerEvent::AppIdentifier { handle, app_identifier } => EventModel::AppIdentifier {
                handle: *handle,
                app_identifier: app_identifier@,
            },
            TrackerEvent::ActivationSnapshot { handle, snapshot } => EventModel::ActivationSnapshot {
                handle: *handle,
                snapshot: snapshot@,
            },
            TrackerEvent::Closed { handle } => EventModel::Closed { handle: *handle },
            TrackerEvent::Idled => EventModel::Idled,
            TrackerEvent::Resumed => EventModel::Resumed,
        }
    }
}

/// The engine after any one event, with everything the event emitted, in
/// order. This is the whole machine as one transition function.
pub open spec fn model_event(
    t: TrackerModel,
    ev: EventModel,
    now_mono: u64,
    now_wall: u64,
) -> (TrackerModel, Seq<IntervalModel>) {
    match ev {
        EventModel::AppIdentifier { handle, app_identifier } => (
            model_set_app_identifier(t, handle, app_identifier),
            Seq::empty(),
        ),
        EventModel::ActivationSnapshot { handle, snapshot } => {
            let r = model_snapshot(t, handle, snapshot, now_mono, now_wall);
            (r.0, opt_emissions(r.1))
        },
        EventModel::Closed { handle } => {
            let r = model_closed(t, handle, now_mono, now_wall);
            (r.0, opt_emissions(r.1))
        },
        EventModel::Idled => model_idled(t, now_mono, now_wall),
        EventModel::Resumed => (model_resumed(t, now_mono), Seq::empty()),
    }
}

/// The focus-duration tracking engine: registry, state machine and idle
/// coordinator in one single-threaded value.
pub struct Tracker {
    entries: Vec<(u64, ToplevelEntry)>,
    idle: GlobalIdleState,
    last_now: u64,
}

impl View for Tracker {
    type V = TrackerModel;

    closed spec fn view(&self) -> TrackerModel {
        TrackerModel {
            entries: self.entries@.map_values(|p: (u64, ToplevelEntry)| (p.0, p.1@)),
            idle: self.idle,
            last_now: self.last_now,
        }
    }
}

impl Tracker {
    /// The engine's invariant, preserved by every event.
    pub open spec fn wf(self) -> bool {
        tracker_wf(self@)
    }

    /// A fresh engine: empty registry, user active, clock at zero.
    pub fn new() -> (t: Tracker)
        ensures
            t@.entries == Seq::<(u64, EntryModel)>::empty(),
            t@.idle == GlobalIdleState::Active,
            t@.last_now == 0,
            t.wf(),
    {
        let t = Tracker { entries: Vec::new(), idle: GlobalIdleState::Active, last_now: 0 };
        proof {
            assert(t@.entries =~= Seq::<(u64, EntryModel)>::empty());
        }
        t
    }

    /// The slot index a handle lives at, if any.
    fn find(&self, handle: u64) -> (r: Option<usize>)
        requires
            unique_handles(self@.entries),
        ensures
            match r {
                Some(i) => {
                    &&& i < self@.entries.len()
                    &&& self@.entries[i as int].0 == handle
                    &&& has_handle(self@.entries, handle)
                    &&& handle_index(self@.entries, handle) == i as int
                },
                None => !has_handle(self@.entries, handle),
            },
    {
        let ghost s = self@.entries;
        let mut i: usize = 0;
        while i < self.entries.len()
            invariant
                i <= s.len(),
                s == self@.entries,
                s.len() == self.entries@.len(),
                unique_handles(s),
                forall|k: int| 0 <= k < i ==> s[k].0 != handle,
            decreases s.len() - i,
        {
            if self.entries[i].0 == handle {
                proof {
                    assert(s[i as int].0 == handle);
                    assert(has_handle(s, handle));
                    let j = handle_index(s, handle);
                    assert(0 <= j < s.len() && s[j].0 == handle);
                    if j < i as int {
                        assert(s[j].0 != s[i as int].0);
                    } else if j > i as int {
                        assert(s[i as int].0 != s[j].0);
                    }
                }
                return Some(i);
            }
            i = i + 1;
        }
        None
    }

    /// Finds the slot for a handle, creating a default entry on first
    /// reference; the registry never fails a lookup.
    fn ensure_index(&mut self, handle: u64) -> (idx: usize)
        requires
            old(self).wf(),
        ensures
            final(self).wf(),
            final(self)@.entries == ensure_entry(old(self)@.entries, handle),
            final(self)@.idle == old(self)@.idle,
            final(self)@.last_now == old(self)@.last_now,
            idx < final(self)@.entries.len(),
            final(self)@.entries[idx as int].0 == handle,
            has_handle(final(self)@.entries, handle),
            handle_index(final(self)@.entries, handle) == idx as int,
            final(self)@.entries[idx as int].1 == entry_at(old(self)@.entries, handle),
    {
        match self.find(handle) {
            Some(i) => {
                proof {
                    assert(entry_at(self@.entries, handle) == self@.entries[i as int].1);
                }
                i
            },
            None => {
                let ghost s = self@.entries;
                self.entries.push((handle, ToplevelEntry::default()));
                let idx = self.entries.len() - 1;
                proof {
                    let s2 = self@.entries;
                    assert(s2 =~= s.push((handle, default_entry())));
                    assert(s2[idx as int].0 == handle);
                    assert(has_handle(s2, handle));
                    assert forall|i: int, j: int|
                        #![trigger s2[i], s2[j]]
                        0 <= i < j < s2.len() implies s2[i].0 != s2[j].0 by {
                        if j == idx as int {
                            assert(s2[i] == s[i]);
                            assert(s[i].0 != handle);
                        } else {
                            assert(s2[i] == s[i]);
                            assert(s2[j] == s[j]);
                        }
                    }
                    let j = handle_index(s2, handle);
                    assert(0 <= j < s2.len() && s2[j].0 == handle);
                    if j < idx as int {
                        assert(s2[j].0 != s2[idx as int].0);
                    }
                    assert forall|i: int|
                        0 <= i < s2.len() implies #[trigger] entry_wf(
                        s2[i].1,
                        self@.idle,
                        self@.last_now,
                    ) by {
                        if i < idx as int {
                            assert(s2[i] == s[i]);
                            assert(entry_wf(s[i].1, old(self)@.idle, old(self)@.last_now));
                        }
                    }
                }
                idx
            },
        }
    }

    /// Records the app label for a handle's entry, creating the entry on
    /// first reference. No session side effects: an open session keeps
    /// running and keeps its start.
    pub fn set_app_identifier(&mut self, handle: u64, app_identifier: String)
        requires
            old(self).wf(),
        ensures
            final(self).wf(),
            final(self)@ == model_set_app_identifier(old(self)@, handle, app_identifier@),
    {
        let idx = self.ensure_index(handle);
        let ghost s = self@.entries;
        let ghost mid = self@;
        let (h0, e0) = self.entries.remove(idx);
        let e1 = ToplevelEntry {
            app_identifier: Some(app_identifier),
            activated: e0.activated,
            focus_started_at: e0.focus_started_at,
        };
        self.entries.insert(idx, (h0, e1));
        proof {
            let target = model_set_app_identifier(old(self)@, handle, app_identifier@);
            assert(self@.entries =~= target.entries);
            assert(self@ =~= target);
            assert forall|i: int|
                0 <= i < self@.entries.len() implies #[trigger] entry_wf(
                self@.entries[i].1,
                self@.idle,
                self@.last_now,
            ) by {
                assert(entry_wf(mid.entries[i].1, mid.idle, mid.last_now));
            }
            assert forall|i: int, j: int|
                #![trigger self@.entries[i], self@.entries[j]]
                0 <= i < j < self@.entries.len() implies self@.entries[i].0
                != self@.entries[j].0 by {
                assert(self@.entries[i].0 == mid.entries[i].0);
                assert(self@.entries[j].0 == mid.entries[j].0);
            }
        }
    }

    /// Applies one full activation snapshot to a handle's entry (created
    /// on first reference) and returns the usage record it completes, if
    /// any. An undecodable snapshot fails closed: activation is left
    /// unchanged and nothing is emitted.
    ///
    /// `now_mono` is the current monotonic reading (never behind the
    /// engine's last one), `now_wall` the current wall-clock time in
    /// milliseconds since the epoch (never behind the monotonic reading).
    pub fn set_activation_snapshot(
        &mut self,
        handle: u64,
        snapshot: &Vec<u32>,
        now_mono: u64,
        now_wall: u64,
    ) -> (r: Option<UsageInterval>)
        requires
            old(self).wf(),
            old(self)@.last_now <= now_mono,
            now_mono <= now_wall,
        ensures
            final(self).wf(),
            final(self)@ == model_snapshot(old(self)@, handle, snapshot@, now_mono, now_wall).0,
            opt_interval_view(r) == model_snapshot(
                old(self)@,
                handle,
                snapshot@,
                now_mono,
                now_wall,
            ).1,
    {
        let idx = self.ensure_index(handle);
        let ghost mid = self@;
        self.last_now = now_mono;
        match parse_activation(snapshot) {
            None => {
                proof {
                    let target = model_snapshot(old(self)@, handle, snapshot@, now_mono, now_wall);
                    assert(self@ =~= target.0);
                    assert forall|i: int|
                        0 <= i < self@.entries.len() implies #[trigger] entry_wf(
                        self@.entries[i].1,
                        self@.idle,
                        self@.last_now,
                    ) by {
                        assert(entry_wf(mid.entries[i].1, mid.idle, mid.last_now));
                    }
                }
                None
            },
            Some(active) => {
                let ghost s = self@.entries;
                let (h0, mut e0) = self.entries.remove(idx);
                let ghost em = e0@;
                let was = e0.activated;
                let mut r: Option<UsageInterval> = None;
                if !was && active {
                    e0.activated = true;
                    if self.idle == GlobalIdleState::Active {
                        e0.focus_started_at = Some(now_mono);
                    }
                } else if was && !active {
                    proof {
                        assert(entry_wf(mid.entries[idx as int].1, mid.idle, mid.last_now));
                    }
                    r = close_entry(&mut e0, now_mono, now_wall);
                    e0.activated = false;
                }
                self.entries.insert(idx, (h0, e0));
                proof {
                    let target = model_snapshot(old(self)@, handle, snapshot@, now_mono, now_wall);
                    assert(em == entry_at(old(self)@.entries, handle));
                    assert(e0@ == snapshot_next(em, active, old(self)@.idle, now_mono));
                    assert(self@.entries =~= target.0.entries);
                    assert(self@ =~= target.0);
                    assert(opt_interval_view(r) == target.1);
                    assert forall|i: int|
                        0 <= i < self@.entries.len() implies #[trigger] entry_wf(
                        self@.entries[i].1,
                        self@.idle,
                        self@.last_now,
                    ) by {
                        if i != idx as int {
                            assert(self@.entries[i] == mid.entries[i]);
                            assert(entry_wf(mid.entries[i].1, mid.idle, mid.last_now));
                        } else {
                            assert(entry_wf(mid.entries[i].1, mid.idle, mid.last_now));
                        }
                    }
                    assert forall|i: int, j: int|
                        #![trigger self@.entries[i], self@.entries[j]]
                        0 <= i < j < self@.entries.len() implies self@.entries[i].0
                        != self@.entries[j].0 by {
                        assert(self@.entries[i].0 == mid.entries[i].0);
                        assert(self@.entries[j].0 == mid.entries[j].0);
                    }
                }
                r
            },
        }
    }

    /// Flushes any open session for a closed window — regardless of its
    /// last observed activation bit — and evicts its entry. A later event
    /// for the same handle starts over from a default entry.
    pub fn closed(&mut self, handle: u64, now_mono: u64, now_wall: u64) -> (r: Option<
        UsageInterval,
    >)
        requires
            old(self).wf(),
            old(self)@.last_now <= now_mono,
            now_mono <= now_wall,
        ensures
            final(self).wf(),
            final(self)@ == model_closed(old(self)@, handle, now_mono, now_wall).0,
            opt_interval_view(r) == model_closed(old(self)@, handle, now_mono, now_wall).1,
    {
        let r = match self.find(handle) {
            None => None,
            Some(i) => {
                proof {
                    assert(entry_wf(
                        old(self)@.entries[i as int].1,
                        old(self)@.idle,
                        old(self)@.last_now,
                    ));
                }
                let (h0, mut e0) = self.entries.remove(i);
                close_entry(&mut e0, now_mono, now_wall)
            },
        };
        self.last_now = now_mono;
        proof {
            let target = model_closed(old(self)@, handle, now_mono, now_wall);
            assert(self@.entries =~= target.0.entries);
            assert(self@ =~= target.0);
            assert(opt_interval_view(r) == target.1);
            assert forall|i: int|
                0 <= i < self@.entries.len() implies #[trigger] entry_wf(
                self@.entries[i].1,
                self@.idle,
                self@.last_now,
            ) by {
                let s0 = old(self)@.entries;
                if has_handle(s0, handle) {
                    let k = handle_index(s0, handle);
                    if i < k {
                        assert(entry_wf(s0[i].1, old(self)@.idle, old(self)@.last_now));
                    } else {
                        assert(self@.entries[i] == s0[i + 1]);
                        assert(entry_wf(s0[i + 1].1, old(self)@.idle, old(self)@.last_now));
                    }
                } else {
                    assert(entry_wf(s0[i].1, old(self)@.idle, old(self)@.last_now));
                }
            }
            assert forall|i: int, j: int|
                #![trigger self@.entries[i], self@.entries[j]]
                0 <= i < j < self@.entries.len() implies self@.entries[i].0
                != self@.entries[j].0 by {
                let s0 = old(self)@.entries;
                if has_handle(s0, handle) {
                    let k = handle_index(s0, handle);
                    if j < k {
                        assert(s0[i].0 != s0[j].0);
                    } else if i < k {
                        assert(self@.entries[j] == s0[j + 1]);
                        assert(s0[i].0 != s0[j + 1].0);
                    } else {
                        assert(self@.entries[i] == s0[i + 1]);
                        assert(self@.entries[j] == s0[j + 1]);
                        assert(s0[i + 1].0 != s0[j + 1].0);
                    }
                }
            }
        }
        r
    }

    /// Applies a global Idled notification as one batch: the idle flag
    /// goes Idle, and every entry's open session is closed and flushed,
    /// in registry order, under the same attribution rule as a
    /// deactivation. Entries without an open session — notably those whose
    /// activation arrived while already idle — are untouched.
    pub fn idled(&mut self, now_mono: u64, now_wall: u64) -> (emitted: Vec<UsageInterval>)
        requires
            old(self).wf(),
            old(self)@.last_now <= now_mono,
            now_mono <= now_wall,
        ensures
            final(self).wf(),
            final(self)@ == model_idled(old(self)@, now_mono, now_wall).0,
            emitted@.map_values(|iv: UsageInterval| iv@) == model_idled(
                old(self)@,
                now_mono,
                now_wall,
            ).1,
    {
        let ghost t0 = old(self)@;
        self.idle = GlobalIdleState::Idle;
        self.last_now = now_mono;
        let mut emitted: Vec<UsageInterval> = Vec::new();
        let mut i: usize = 0;
        let n = self.entries.len();
        while i < n
            invariant
                self@.idle == GlobalIdleState::Idle,
                self@.last_now == now_mono,
                now_mono <= now_wall,
                tracker_wf(t0),
                t0.last_now <= now_mono,
                i <= n,
                n == t0.entries.len(),
                self@.entries.len() == t0.entries.len(),
                forall|k: int|
                    0 <= k < i ==> #[trigger] self@.entries[k] == (
                    t0.entries[k].0,
                    idled_next(t0.entries[k].1),
                ),
                forall|k: int| i <= k < n ==> #[trigger] self@.entries[k] == t0.entries[k],
                emitted@.map_values(|iv: UsageInterval| iv@) == idled_emissions(
                    t0.entries.take(i as int),
                    now_mono,
                    now_wall,
                ),
            decreases n - i,
        {
            let ghost prev = self@;
            proof {
                assert(prev.entries[i as int] == t0.entries[i as int]);
                assert(entry_wf(t0.entries[i as int].1, t0.idle, t0.last_now));
            }
            let (h0, mut e0) = self.entries.remove(i);
            proof {
                assert(e0@ == t0.entries[i as int].1);
            }
            let ghost emitted_before = emitted@.map_values(|iv: UsageInterval| iv@);
            match close_entry(&mut e0, now_mono, now_wall) {
                Some(iv) => {
                    emitted.push(iv);
                    proof {
                        assert(emitted@.map_values(|iv: UsageInterval| iv@) =~= emitted_before.push(
                            iv@,
                        ));
                    }
                },
                None => {},
            }
            self.entries.insert(i, (h0, e0));
            i = i + 1;
            proof {
                assert(self@.entries =~= prev.entries.update(i as int - 1, (h0, e0@)));
                assert(e0@ == idled_next(t0.entries[i as int - 1].1));
                assert(h0 == t0.entries[i as int - 1].0);
                let done = t0.entries.take(i as int);
                assert(done.drop_last() =~= t0.entries.take(i as int - 1));
                assert(done.last() == t0.entries[i as int - 1]);
                assert(emitted@.map_values(|iv: UsageInterval| iv@) == idled_emissions(
                    done,
                    now_mono,
                    now_wall,
                ));
            }
        }
        proof {
            let target = model_idled(t0, now_mono, now_wall);
            assert(self@.entries =~= target.0.entries);
            assert(self@ =~= target.0);
            assert(t0.entries.take(n as int) =~= t0.entries);
            assert forall|i: int|
                0 <= i < self@.entries.len() implies #[trigger] entry_wf(
                self@.entries[i].1,
                self@.idle,
                self@.last_now,
            ) by {
                assert(self@.entries[i].1 == idled_next(t0.entries[i].1));
            }
            assert forall|i: int, j: int|
                #![trigger self@.entries[i], self@.entries[j]]
                0 <= i < j < self@.entries.len() implies self@.entries[i].0
                != self@.entries[j].0 by {
                assert(self@.entries[i].0 == t0.entries[i].0);
                assert(self@.entries[j].0 == t0.entries[j].0);
            }
        }
        emitted
    }

    /// Applies a global Resumed notification as one batch: the idle flag
    /// goes Active and every entry whose activation bit is set gets a
    /// fresh session starting now — the time spent idle is never counted.
    /// Inactive entries are untouched.
    pub fn resumed(&mut self, now_mono: u64)
        requires
            old(self).wf(),
            old(self)@.last_now <= now_mono,
        ensures
            final(self).wf(),
            final(self)@ == model_resumed(old(self)@, now_mono),
    {
        let ghost t0 = old(self)@;
        self.idle = GlobalIdleState::Active;
        self.last_now = now_mono;
        let mut i: usize = 0;
        let n = self.entries.len();
        while i < n
            invariant
                self@.idle == GlobalIdleState::Active,
                self@.last_now == now_mono,
                tracker_wf(t0),
                i <= n,
                n == t0.entries.len(),
                self@.entries.len() == t0.entries.len(),
                forall|k: int|
                    0 <= k < i ==> #[trigger] self@.entries[k] == (
                    t0.entries[k].0,
                    resumed_next(t0.entries[k].1, now_mono),
                ),
                forall|k: int| i <= k < n ==> #[trigger] self@.entries[k] == t0.entries[k],
            decreases n - i,
        {
            let ghost prev = self@;
            proof {
                assert(prev.entries[i as int] == t0.entries[i as int]);
            }
            let (h0, mut e0) = self.entries.remove(i);
            proof {
                assert(e0@ == t0.entries[i as int].1);
            }
            if e0.activated {
                e0.focus_started_at = Some(now_mono);
            }
            self.entries.insert(i, (h0, e0));
            i = i + 1;
            proof {
                assert(self@.entries =~= prev.entries.update(i as int - 1, (h0, e0@)));
                assert(e0@ == resumed_next(t0.entries[i as int - 1].1, now_mono));
                assert(h0 == t0.entries[i as int - 1].0);
            }
        }
        proof {
            let target = model_resumed(t0, now_mono);
            assert(self@.entries =~= target.entries);
            assert(self@ =~= target);
            assert forall|i: int|
                0 <= i < self@.entries.len() implies #[trigger] entry_wf(
                self@.entries[i].1,
                self@.idle,
                self@.last_now,
            ) by {
                assert(entry_wf(t0.entries[i].1, t0.idle, t0.last_now));
                assert(self@.entries[i].1 == resumed_next(t0.entries[i].1, now_mono));
            }
            assert forall|i: int, j: int|
                #![trigger self@.entries[i], self@.entries[j]]
                0 <= i < j < self@.entries.len() implies self@.entries[i].0
                != self@.entries[j].0 by {
                assert(self@.entries[i].0 == t0.entries[i].0);
                assert(self@.entries[j].0 == t0.entries[j].0);
            }
        }
    }

    /// Processes one event from the stream: dispatches to the matching
    /// transition and returns every usage record the event completed, in
    /// order, for the caller to persist.
    pub fn event(&mut self, ev: TrackerEvent, now_mono: u64, now_wall: u64) -> (emitted: Vec<
        UsageInterval,
    >)
        requires
            old(self).wf(),
            old(self)@.last_now <= now_mono,
            now_mono <= now_wall,
        ensures
            final(self).wf(),
            final(self)@ == model_event(old(self)@, ev@, now_mono, now_wall).0,
            emitted@.map_values(|iv: UsageInterval| iv@) == model_event(
                old(self)@,
                ev@,
                now_mono,
                now_wall,
            ).1,
    {
        let ghost evm = ev@;
        match ev {
            TrackerEvent::AppIdentifier { handle, app_identifier } => {
                self.set_app_identifier(handle, app_identifier);
                let emitted: Vec<UsageInterval> = Vec::new();
                proof {
                    assert(emitted@.map_values(|iv: UsageInterval| iv@) =~= Seq::<
                        IntervalModel,
                    >::empty());
                }
                emitted
            },
            TrackerEvent::ActivationSnapshot { handle, snapshot } => {
                let r = self.set_activation_snapshot(handle, &snapshot, now_mono, now_wall);
                let mut emitted: Vec<UsageInterval> = Vec::new();
                match r {
                    Some(iv) => {
                        emitted.push(iv);
                    },
                    None => {},
                }
                proof {
                    assert(emitted@.map_values(|iv: UsageInterval| iv@) =~= model_event(
                        old(self)@,
                        evm,
                        now_mono,
                        now_wall,
                    ).1);
                }
                emitted
            },
            TrackerEvent::Closed { handle } => {
                let r = self.closed(handle, now_mono, now_wall);
                let mut emitted: Vec<UsageInterval> = Vec::new();
                match r {
                    Some(iv) => {
                        emitted.push(iv);
                    },
                    None => {},
                }
                proof {
                    assert(emitted@.map_values(|iv: UsageInterval| iv@) =~= model_event(
                        old(self)@,
                        evm,
                        now_mono,
                        now_wall,
                    ).1);
                }
                emitted
            },
            TrackerEvent::Idled => self.idled(now_mono, now_wall),
            TrackerEvent::Resumed => {
                self.resumed(now_mono);
                let emitted: Vec<UsageInterval> = Vec::new();
                proof {
                    assert(emitted@.map_values(|iv: UsageInterval| iv@) =~= Seq::<
                        IntervalModel,
                    >::empty());
                }
                emitted
            },
        }
    }

    /// The current global idle flag.
    pub fn idle_state(&self) -> (s: GlobalIdleState)
        ensures
            s == self@.idle,
    {
        self.idle
    }

    /// The latest monotonic reading the engine has seen.
    pub fn last_now(&self) -> (t: u64)
        ensures
            t == self@.last_now,
    {
        self.last_now
    }

    /// How many windows the registry currently tracks.
    pub fn tracked_count(&self) -> (n: usize)
        ensures
            n == self@.entries.len(),
    {
        self.entries.len()
    }

    /// Whether a handle currently has an entry.
    pub fn contains(&self, handle: u64) -> (b: bool)
        requires
            self.wf(),
        ensures
            b == has_handle(self@.entries, handle),
    {
        match self.find(handle) {
            Some(_) => true,
            None => false,
        }
    }

    /// A copy of the entry a handle maps to, for inspection; a handle
    /// never seen reads as a default entry, never as an error.
    pub fn entry_of(&self, handle: u64) -> (e: ToplevelEntry)
        requires
            self.wf(),
        ensures
            e@ == entry_at(self@.entries, handle),
    {
        match self.find(handle) {
            Some(i) => {
                let p = &self.entries[i];
                let e = ToplevelEntry {
                    app_identifier: match &p.1.app_identifier {
                        Some(name) => Some(name.clone()),
                        None => None,
                    },
                    activated: p.1.activated,
                    focus_started_at: p.1.focus_started_at,
                };
                proof {
                    assert(self@.entries[i as int].1 == p.1@);
                }
                e
            },
            None => ToplevelEntry::default(),
        }
    }
}

} // verus!
