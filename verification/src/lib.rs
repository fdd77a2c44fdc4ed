//! Focus-duration tracking for a Wayland desktop.
//!
//! The engine turns an ordered stream of window-lifecycle and system-idle
//! notifications into non-overlapping "app was focused from T1 to T2"
//! intervals, and offers the aggregate queries a usage dashboard needs.
//! Everything here is pure logic over plain values; the surrounding program
//! supplies clock readings and event decoding, and persists the intervals.

pub mod entry;
pub mod flags;
pub mod laws;
pub mod queries;
pub mod recorder;
pub mod report;
pub mod tracker;
