//! End-to-end behaviour of the focus tracking engine.

use wayland_appusage::entry::GlobalIdleState;
use wayland_appusage::tracker::{Tracker, TrackerEvent};

const SEC: u64 = 1000;
const WALL0: u64 = 1_700_000_000_000;

/// Wall-clock reading used for a monotonic reading `m`.
fn wall(m: u64) -> u64 {
    WALL0 + m
}

fn activated() -> Vec<u32> {
    vec![2]
}

fn inactive() -> Vec<u32> {
    vec![]
}

#[test]
fn single_session_is_recorded_exactly() {
    let mut t = Tracker::new();
    t.set_app_identifier(1, "term".to_string());
    let r1 = t.set_activation_snapshot(1, &activated(), 0, wall(0));
    assert!(r1.is_none());
    let r2 = t.set_activation_snapshot(1, &inactive(), 10 * SEC, wall(10 * SEC));
    let iv = r2.expect("deactivation must flush the session");
    assert_eq!(iv.app_name, "term");
    assert_eq!(iv.duration, 10 * SEC);
    assert_eq!(iv.end_time, wall(10 * SEC));
    assert_eq!(iv.start_time, wall(10 * SEC) - 10 * SEC);
}

#[test]
fn unattributed_session_is_dropped() {
    let mut t = Tracker::new();
    let r1 = t.set_activation_snapshot(1, &activated(), 0, wall(0));
    assert!(r1.is_none());
    let r2 = t.set_activation_snapshot(1, &inactive(), 10 * SEC, wall(10 * SEC));
    assert!(r2.is_none(), "no app identifier means no record");
}

#[test]
fn idle_span_is_excluded() {
    let mut t = Tracker::new();
    t.set_app_identifier(1, "edit".to_string());
    assert!(t.set_activation_snapshot(1, &activated(), 0, wall(0)).is_none());
    let idle_out = t.idled(10 * SEC, wall(10 * SEC));
    assert_eq!(idle_out.len(), 1);
    assert_eq!(idle_out[0].duration, 10 * SEC);
    t.resumed(40 * SEC);
    let r = t.set_activation_snapshot(1, &inactive(), 50 * SEC, wall(50 * SEC));
    let iv = r.expect("deactivation after resume must flush");
    assert_eq!(iv.duration, 10 * SEC);
    let total: u64 = idle_out[0].duration + iv.duration;
    assert_eq!(total, 20 * SEC, "50s of wall time minus 30s idle");
}

#[test]
fn activation_while_idle_is_deferred() {
    let mut t = Tracker::new();
    t.set_app_identifier(1, "web".to_string());
    let idle_out = t.idled(0, wall(0));
    assert!(idle_out.is_empty());
    let r = t.set_activation_snapshot(1, &activated(), 5 * SEC, wall(5 * SEC));
    assert!(r.is_none(), "no session opens while idle");
    let e = t.entry_of(1);
    assert!(e.activated);
    assert!(e.focus_started_at.is_none());
    t.resumed(20 * SEC);
    let e = t.entry_of(1);
    assert_eq!(
        e.focus_started_at,
        Some(20 * SEC),
        "the session opens at resume, not backdated"
    );
    let r = t.set_activation_snapshot(1, &inactive(), 30 * SEC, wall(30 * SEC));
    assert_eq!(r.expect("flush").duration, 10 * SEC);
}

#[test]
fn close_flushes_and_evicts() {
    let mut t = Tracker::new();
    t.set_app_identifier(1, "mail".to_string());
    assert!(t.set_activation_snapshot(1, &activated(), 0, wall(0)).is_none());
    let r = t.closed(1, 30 * SEC, wall(30 * SEC));
    let iv = r.expect("closing an active window flushes its session");
    assert_eq!(iv.duration, 30 * SEC);
    assert_eq!(iv.end_time, wall(30 * SEC));
    assert_eq!(iv.start_time, wall(30 * SEC) - 30 * SEC);
    assert_eq!(t.tracked_count(), 0);
    assert!(!t.contains(1));
    // a further event for the same handle starts from a default entry
    t.set_app_identifier(1, "mail2".to_string());
    let e = t.entry_of(1);
    assert_eq!(e.app_identifier, Some("mail2".to_string()));
    assert!(!e.activated);
    assert!(e.focus_started_at.is_none());
}

#[test]
fn close_without_session_emits_nothing() {
    let mut t = Tracker::new();
    t.set_app_identifier(1, "term".to_string());
    let r = t.closed(1, 5 * SEC, wall(5 * SEC));
    assert!(r.is_none());
    assert!(!t.contains(1));
}

#[test]
fn repeated_snapshot_is_a_no_op() {
    let mut t = Tracker::new();
    t.set_app_identifier(1, "term".to_string());
    assert!(t.set_activation_snapshot(1, &activated(), 0, wall(0)).is_none());
    let before = t.entry_of(1);
    let r = t.set_activation_snapshot(1, &activated(), 7 * SEC, wall(7 * SEC));
    assert!(r.is_none(), "an unchanged bit emits nothing");
    let after = t.entry_of(1);
    assert_eq!(after.app_identifier, before.app_identifier);
    assert_eq!(after.activated, before.activated);
    assert_eq!(
        after.focus_started_at, before.focus_started_at,
        "the open session keeps its original start"
    );
}

#[test]
fn one_record_per_active_run() {
    let mut t = Tracker::new();
    t.set_app_identifier(1, "term".to_string());
    let mut emitted = 0;
    for (active, now) in [(true, 0), (true, 1), (false, 2), (false, 3), (true, 4), (false, 5)] {
        let flags = if active { activated() } else { inactive() };
        let now_ms = now * SEC;
        if t
            .set_activation_snapshot(1, &flags, now_ms, wall(now_ms))
            .is_some()
        {
            emitted += 1;
        }
    }
    assert_eq!(emitted, 2, "two active runs, one record each");
}

#[test]
fn malformed_snapshot_leaves_activation_unchanged() {
    let mut t = Tracker::new();
    t.set_app_identifier(1, "term".to_string());
    assert!(t.set_activation_snapshot(1, &activated(), 0, wall(0)).is_none());
    // 9 is no known state value: the whole snapshot is undecodable
    let r = t.set_activation_snapshot(1, &vec![2, 9], 5 * SEC, wall(5 * SEC));
    assert!(r.is_none(), "an undecodable snapshot neither flushes nor opens");
    let e = t.entry_of(1);
    assert!(e.activated);
    assert_eq!(e.focus_started_at, Some(0));
    // a later decodable snapshot still works
    let r = t.set_activation_snapshot(1, &inactive(), 8 * SEC, wall(8 * SEC));
    assert_eq!(r.expect("flush").duration, 8 * SEC);
}

#[test]
fn other_flags_are_ignored() {
    let mut t = Tracker::new();
    t.set_app_identifier(1, "term".to_string());
    // maximized + fullscreen, but not activated
    let r = t.set_activation_snapshot(1, &vec![0, 3], 0, wall(0));
    assert!(r.is_none());
    assert!(!t.entry_of(1).activated);
    // minimized + activated
    let r = t.set_activation_snapshot(1, &vec![1, 2], SEC, wall(SEC));
    assert!(r.is_none());
    assert!(t.entry_of(1).activated);
}

#[test]
fn window_starting_focused_opens_on_first_snapshot() {
    let mut t = Tracker::new();
    let r = t.set_activation_snapshot(9, &activated(), 3 * SEC, wall(3 * SEC));
    assert!(r.is_none());
    let e = t.entry_of(9);
    assert!(e.activated);
    assert_eq!(e.focus_started_at, Some(3 * SEC));
}

#[test]
fn app_identifier_can_arrive_after_activation() {
    let mut t = Tracker::new();
    assert!(t.set_activation_snapshot(1, &activated(), 0, wall(0)).is_none());
    t.set_app_identifier(1, "late".to_string());
    let r = t.set_activation_snapshot(1, &inactive(), 4 * SEC, wall(4 * SEC));
    let iv = r.expect("the label arrived before the close, so it counts");
    assert_eq!(iv.app_name, "late");
}

#[test]
fn idled_flushes_every_open_session_in_order() {
    let mut t = Tracker::new();
    t.set_app_identifier(1, "one".to_string());
    t.set_app_identifier(2, "two".to_string());
    t.set_app_identifier(3, "three".to_string());
    assert!(t.set_activation_snapshot(1, &activated(), 0, wall(0)).is_none());
    assert!(t.set_activation_snapshot(2, &activated(), SEC, wall(SEC)).is_none());
    // 1 and 2 both hold open sessions (the bits are applied exactly as
    // delivered, so activating 2 did not deactivate 1); 3 stays inactive
    let out = t.idled(10 * SEC, wall(10 * SEC));
    assert_eq!(out.len(), 2);
    assert_eq!(out[0].app_name, "one");
    assert_eq!(out[0].duration, 10 * SEC);
    assert_eq!(out[1].app_name, "two");
    assert_eq!(out[1].duration, 9 * SEC);
    // a second idled finds nothing left to flush
    let out = t.idled(11 * SEC, wall(11 * SEC));
    assert!(out.is_empty());
}

#[test]
fn resumed_reopens_only_activated_entries() {
    let mut t = Tracker::new();
    t.set_app_identifier(1, "one".to_string());
    t.set_app_identifier(2, "two".to_string());
    assert!(t.set_activation_snapshot(1, &activated(), 0, wall(0)).is_none());
    let _ = t.idled(10 * SEC, wall(10 * SEC));
    t.resumed(30 * SEC);
    assert_eq!(t.entry_of(1).focus_started_at, Some(30 * SEC));
    assert!(t.entry_of(2).focus_started_at.is_none());
}

#[test]
fn event_stream_dispatch() {
    let mut t = Tracker::new();
    let mut log: Vec<wayland_appusage::recorder::UsageInterval> = Vec::new();
    let stream = vec![
        (TrackerEvent::AppIdentifier { handle: 1, app_identifier: "term".to_string() }, 0),
        (TrackerEvent::ActivationSnapshot { handle: 1, snapshot: vec![2] }, 0),
        (TrackerEvent::Idled, 10 * SEC),
        (TrackerEvent::Resumed, 40 * SEC),
        (TrackerEvent::ActivationSnapshot { handle: 1, snapshot: vec![] }, 50 * SEC),
        (TrackerEvent::Closed { handle: 1 }, 60 * SEC),
    ];
    for (ev, now) in stream {
        log.extend(t.event(ev, now, wall(now)));
    }
    assert_eq!(log.len(), 2);
    assert_eq!(log[0].duration, 10 * SEC);
    assert_eq!(log[1].duration, 10 * SEC);
    assert_eq!(t.tracked_count(), 0);
}

#[test]
fn tracker_state_getters() {
    let mut t = Tracker::new();
    assert_eq!(t.idle_state(), GlobalIdleState::Active);
    assert_eq!(t.last_now(), 0);
    assert_eq!(t.tracked_count(), 0);
    let _ = t.idled(5 * SEC, wall(5 * SEC));
    assert_eq!(t.idle_state(), GlobalIdleState::Idle);
    assert_eq!(t.last_now(), 5 * SEC);
    t.resumed(6 * SEC);
    assert_eq!(t.idle_state(), GlobalIdleState::Active);
}
