//! Fail-closed decoding of a toplevel's full state snapshot.
//!
//! The window manager reports a toplevel's state as a flat list of flag
//! values. The tracker cares about exactly one of them — the "activated"
//! bit — but a snapshot containing a value outside the known range is
//! treated as undecodable, so that a caller can leave the activation state
//! unchanged instead of guessing.

use vstd::prelude::*;

verus! {

/// Wire value of the "maximized" state flag.
pub const STATE_MAXIMIZED: u32 = 0;

/// Wire value of the "minimized" state flag.
pub const STATE_MINIMIZED: u32 = 1;

/// Wire value of the "activated" (has keyboard focus) state flag.
pub const STATE_ACTIVATED: u32 = 2;

/// Wire value of the "fullscreen" state flag.
pub const STATE_FULLSCREEN: u32 = 3;

/// A single flag value is known when it is one of the four state values.
pub open spec fn flag_known(v: u32) -> bool {
    v == STATE_MAXIMIZED || v == STATE_MINIMIZED || v == STATE_ACTIVATED
        || v == STATE_FULLSCREEN
}

/// A snapshot decodes exactly when every flag in it is known.
pub open spec fn snapshot_decodes(flags: Seq<u32>) -> bool {
    forall|i: int| 0 <= i < flags.len() ==> flag_known(flags[i])
}

/// The OR-reduction of the "activated" bit over a whole snapshot.
pub open spec fn snapshot_activated(flags: Seq<u32>) -> bool {
    exists|i: int| 0 <= i < flags.len() && flags[i] == STATE_ACTIVATED
}

/// Decodes a full state snapshot into its activation bit.
///
/// Returns `None` exactly when the snapshot holds an unknown flag value;
/// otherwise `Some(b)` where `b` says whether the "activated" flag occurs
/// anywhere in the list. An empty snapshot decodes to `Some(false)`.
pub fn parse_activation(flags: &Vec<u32>) -> (r: Option<bool>)
    ensures
        r is Some <==> snapshot_decodes(flags@),
        r is Some ==> r == Some(snapshot_activated(flags@)),
{
    let mut active = false;
    let mut i: usize = 0;
    while i < flags.len()
        invariant
            0 <= i <= flags@.len(),
            forall|k: int| 0 <= k < i ==> flag_known(flags@[k]),
            active <==> exists|k: int| 0 <= k < i && flags@[k] == STATE_ACTIVATED,
        decreases flags@.len() - i,
    {
        let v = flags[i];
        if v != STATE_MAXIMIZED && v != STATE_MINIMIZED && v != STATE_ACTIVATED
            && v != STATE_FULLSCREEN {
            return None;
        }
        if v == STATE_ACTIVATED {
            active = true;
        }
        i = i + 1;
    }
    Some(active)
}

} // verus!
