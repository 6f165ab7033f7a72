//! The decisions of the thread that holds the system-wide shortcut: what to
//! register when the binding changes, and what a refused registration means.

use vstd::prelude::*;

use crate::config::{modifier_value, unpacked, Hotkey, MOD_NOREPEAT};

verus! {

/// What the listener reports back to the UI.
#[derive(Debug, Clone, Copy, PartialEq, Eq, Structural)]
pub enum Event {
    /// The shortcut was pressed.
    Pressed,
    /// Windows refused the combination, which in practice means another
    /// application already owns it.
    Rejected,
}

/// What the listener does when asked to hold the binding packed in some
/// bits: drop the current registration if it has one, then register the
/// modifier flags and key given, if any.
#[derive(Debug, Clone, Copy)]
pub struct Rebind {
    pub unregister: bool,
    pub register: Option<(u32, u32)>,
}

/// The registration a packed binding asks for: its modifier flags with the
/// no-repeat flag, and its key; nothing for "no hotkey".
pub open spec fn registration_for(desired: u64) -> Option<(u32, u32)> {
    match unpacked(desired) {
        Some(h) => Some(((modifier_value(h) + MOD_NOREPEAT) as u32, h.key)),
        None => None,
    }
}

/// Whether the listener currently holds a registration.
#[derive(Debug, Clone, Copy, PartialEq, Eq, Structural)]
pub struct Listener {
    pub bound: bool,
}

impl Listener {
    /// A listener that holds nothing yet.
    pub fn new() -> (listener: Listener)
        ensures
            !listener.bound,
    {
        Listener { bound: false }
    }

    /// Re-reads the desired binding: the old registration always goes, and
    /// the new one is attempted when there is one.
    pub fn rebind(&mut self, desired: u64) -> (step: Rebind)
        ensures
            step == (Rebind { unregister: old(self).bound, register: registration_for(desired) }),
            !final(self).bound,
    {
        let unregister = self.bound;
        self.bound = false;
        let register = match Hotkey::from_bits(desired) {
            Some(h) => Some((h.registration_bits(), h.key)),
            None => None,
        };
        Rebind { unregister, register }
    }

    /// The outcome of a registration attempt: held on success, reported as
    /// rejected otherwise.
    pub fn registered(&mut self, ok: bool) -> (event: Option<Event>)
        ensures
            final(self).bound == ok,
            event == (if ok { None } else { Some(Event::Rejected) }),
    {
        self.bound = ok;
        if ok {
            None
        } else {
            Some(Event::Rejected)
        }
    }
}

} // verus!
