//! The lock-marker lifecycle.
//!
//! The host keeps a marker file on disk so that a second instance refuses
//! to start.  The decisions live here over a plain record of whether the
//! marker exists; the host mirrors every change to the file system.

use vstd::prelude::*;

verus! {

/// Whether the lock-instance marker exists.
#[derive(Clone, Copy, PartialEq, Eq, Structural, Debug)]
pub struct LockState {
    pub marker: bool,
}

impl Default for LockState {
    /// No marker present.
    fn default() -> (s: LockState)
        ensures
            !s.marker,
    {
        LockState { marker: false }
    }
}

/// Places the lock marker.
pub fn create_lock(state: &mut LockState)
    ensures
        final(state).marker,
{
    state.marker = true;
}

/// A lock instance is running exactly when the marker exists.
pub fn is_locked(state: &LockState) -> (r: bool)
    ensures
        r == state.marker,
{
    state.marker
}

/// Removes the lock marker; removing an absent marker is a no-op.
pub fn remove_lock(state: &mut LockState)
    ensures
        !final(state).marker,
{
    if !is_locked(state) {
        return ;
    }
    state.marker = false;
}

} // verus!
