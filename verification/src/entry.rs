//! Per-toplevel tracking state and the focus state machine's transition
//! rules.
//!
//! A [`ToplevelEntry`] is the mutable state kept for one window handle. The
//! spec functions here say, for a single entry, what each incoming event
//! does to that state and which usage record (if any) it emits; the
//! registry in [`crate::tracker`] lifts them over all entries.

use vstd::prelude::*;

use crate::recorder::IntervalModel;
use crate::recorder::UsageInterval;
use crate::recorder::made_interval;

verus! {

/// The process-wide idle flag: `Active` while the user is present, `Idle`
/// after the environment reported them away.
#[derive(Clone, Copy, PartialEq, Eq, Structural, Debug)]
pub enum GlobalIdleState {
    Active,
    Idle,
}

/// Tracking state for one toplevel window.
///
/// `focus_started_at` (a monotonic reading, in milliseconds) is present if
/// and only if a focus session is currently open for this window.
#[derive(Debug)]
pub struct ToplevelEntry {
    /// Optional app label; may arrive before or after activation events,
    /// or never. A session that closes while it is unset is discarded.
    pub app_identifier: Option<String>,
    /// The window manager's current "has focus" bit, from the latest
    /// decoded snapshot.
    pub activated: bool,
    /// When the currently open session began, if one is open.
    pub focus_started_at: Option<u64>,
}

/// Mathematical image of a [`ToplevelEntry`].
#[verifier::ext_equal]
pub ghost struct EntryModel {
    pub app_identifier: Option<Seq<char>>,
    pub activated: bool,
    pub focus_started_at: Option<u64>,
}

impl View for ToplevelEntry {
    type V = EntryModel;

    open spec fn view(&self) -> EntryModel {
        EntryModel {
            app_identifier: match self.app_identifier {
                Some(name) => Some(name@),
                None => None,
            },
            activated: self.activated,
            focus_started_at: self.focus_started_at,
        }
    }
}

/// The state a brand-new entry starts in: no app id, not activated, no
/// open session.
pub open spec fn default_entry() -> EntryModel {
    EntryModel { app_identifier: None, activated: false, focus_started_at: None }
}

impl Default for ToplevelEntry {
    /// A default-initialized entry, as created on the first event that
    /// references a handle.
    fn default() -> (e: ToplevelEntry)
        ensures
            e@ == default_entry(),
    {
        ToplevelEntry { app_identifier: None, activated: false, focus_started_at: None }
    }
}

/// Per-entry well-formedness: an open session implies the window is
/// activated, the system is not idle, and the session started no later
/// than the engine's latest clock reading.
pub open spec fn entry_wf(e: EntryModel, idle: GlobalIdleState, last_now: u64) -> bool {
    e.focus_started_at is Some ==> {
        &&& e.activated
        &&& idle == GlobalIdleState::Active
        &&& e.focus_started_at->0 <= last_now
    }
}

/// The record a closing session emits: present exactly when a session is
/// open and the entry is attributed to an app. Its duration is measured
/// against the monotonic clock; its wall-clock start is derived from the
/// end and that duration.
pub open spec fn close_emission(e: EntryModel, now_mono: u64, now_wall: u64) -> Option<
    IntervalModel,
>
    recommends
        e.focus_started_at is Some ==> e.focus_started_at->0 <= now_mono,
        now_mono <= now_wall,
{
    match (e.focus_started_at, e.app_identifier) {
        (Some(started), Some(name)) => Some(
            made_interval(name, now_wall, (now_mono - started) as u64),
        ),
        _ => None,
    }
}

/// The entry after a decoded activation snapshot replaced its bit with
/// `active`:
/// - inactive to active while the system is active opens a session;
/// - inactive to active while idle only records the bit (deferred: a
///   session opens on the next resume);
/// - active to inactive closes any open session;
/// - an unchanged bit changes nothing.
pub open spec fn snapshot_next(
    e: EntryModel,
    active: bool,
    idle: GlobalIdleState,
    now_mono: u64,
) -> EntryModel {
    if !e.activated && active {
        if idle == GlobalIdleState::Active {
            EntryModel { activated: true, focus_started_at: Some(now_mono), ..e }
        } else {
            EntryModel { activated: true, ..e }
        }
    } else if e.activated && !active {
        EntryModel { activated: false, focus_started_at: None, ..e }
    } else {
        e
    }
}

/// What an activation snapshot emits: the closing record when the bit
/// falls from active to inactive, nothing otherwise.
pub open spec fn snapshot_emission(
    e: EntryModel,
    active: bool,
    now_mono: u64,
    now_wall: u64,
) -> Option<IntervalModel> {
    if e.activated && !active {
        close_emission(e, now_mono, now_wall)
    } else {
        None
    }
}

/// The entry after a global Idled notification: any open session is
/// cleared; everything else (notably a deferred `activated` bit) stays.
pub open spec fn idled_next(e: EntryModel) -> EntryModel {
    EntryModel { focus_started_at: None, ..e }
}

/// The entry after a global Resumed notification: every activated entry
/// gets a fresh session starting now — time spent idle is never counted —
/// and inactive entries are untouched.
pub open spec fn resumed_next(e: EntryModel, now_mono: u64) -> EntryModel {
    if e.activated {
        EntryModel { focus_started_at: Some(now_mono), ..e }
    } else {
        e
    }
}

/// Closes this entry's session if one is open: clears it and builds the
/// record to persist, which exists only when the entry is attributed to an
/// app. The duration comes from the monotonic clock; the record's start is
/// derived from the wall-clock end and that duration.
pub(crate) fn close_entry(e: &mut ToplevelEntry, now_mono: u64, now_wall: u64) -> (r: Option<
    UsageInterval,
>)
    requires
        old(e)@.focus_started_at is Some ==> old(e)@.focus_started_at->0 <= now_mono,
        now_mono <= now_wall,
    ensures
        final(e)@ == idled_next(old(e)@),
        match r {
            Some(iv) => close_emission(old(e)@, now_mono, now_wall) == Some(iv@),
            None => close_emission(old(e)@, now_mono, now_wall) is None,
        },
{
    let r = match (&e.focus_started_at, &e.app_identifier) {
        (Some(started), Some(name)) => {
            let duration = now_mono - *started;
            Some(
                UsageInterval {
                    app_name: name.clone(),
                    start_time: now_wall - duration,
                    end_time: now_wall,
                    duration: duration,
                },
            )
        },
        _ => None,
    };
    e.focus_started_at = None;
    r
}

} // verus!
