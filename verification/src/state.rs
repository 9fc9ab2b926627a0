//! The pause flag that a running listener and its controls share.

use std::sync::atomic::AtomicBool;
use std::sync::atomic::Ordering;
use std::sync::Arc;
use vstd::prelude::*;

verus! {

/// A pause flag. Clones share one flag: a change made through one is seen
/// through all of them, so nothing is known here of the value that a read
/// returns.
#[derive(Clone)]
pub struct ListenerState {
    paused: Arc<AtomicBool>,
}

/// The name of a state: `PAUSED` or `LISTENING`.
pub open spec fn status_name(paused: bool) -> Seq<char> {
    if paused {
        "PAUSED"@
    } else {
        "LISTENING"@
    }
}

/// The name of a state: `PAUSED` or `LISTENING`.
pub fn status_of(paused: bool) -> (r: &'static str)
    ensures
        r@ == status_name(paused),
{
    if paused {
        "PAUSED"
    } else {
        "LISTENING"
    }
}

impl ListenerState {
    /// A new flag, not paused.
    pub fn new() -> (r: ListenerState) {
        ListenerState { paused: Arc::new(AtomicBool::new(false)) }
    }

    /// Sets the flag.
    pub fn pause(&self) {
        self.paused.store(true, Ordering::SeqCst);
    }

    /// Clears the flag.
    pub fn continue_listening(&self) {
        self.paused.store(false, Ordering::SeqCst);
    }

    /// Reads the flag.
    pub fn is_paused(&self) -> (r: bool) {
        self.paused.load(Ordering::SeqCst)
    }

    /// Reads the flag and writes back the opposite of what was read.
    pub fn toggle(&self) {
        let current = self.is_paused();
        if current {
            self.continue_listening();
        } else {
            self.pause();
        }
    }

    /// The name of the state that the flag is in when it is read.
    pub fn status(&self) -> (r: &'static str)
        ensures
            r@ == status_name(true) || r@ == status_name(false),
    {
        status_of(self.is_paused())
    }
}

impl Default for ListenerState {
    fn default() -> (r: ListenerState) {
        ListenerState::new()
    }
}

} // verus!
