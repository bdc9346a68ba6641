//! State of the floating quick-lookup window: whether it reacts to global
//! triggers.  The window chrome itself lives outside the library; only the
//! enabled flag and its transitions are kept here.

use vstd::prelude::*;

verus! {

/// Tracks whether the floating window reacts to global triggers.
pub struct FloatingWindowManager {
    enabled: bool,
}

impl FloatingWindowManager {
    /// Whether the manager is enabled.
    pub closed spec fn spec_enabled(&self) -> bool {
        self.enabled
    }

    /// A fresh manager starts enabled.
    pub fn new() -> (r: Self)
        ensures
            r.spec_enabled(),
    {
        FloatingWindowManager { enabled: true }
    }

    /// Reports the enabled flag.
    pub fn is_enabled(&self) -> (r: bool)
        ensures
            r == self.spec_enabled(),
    {
        self.enabled
    }

    /// Sets the enabled flag.
    pub fn set_enabled(&mut self, enabled: bool)
        ensures
            final(self).spec_enabled() == enabled,
    {
        self.enabled = enabled;
    }
}

impl Default for FloatingWindowManager {
    /// The default manager starts enabled.
    fn default() -> (r: Self)
        ensures
            r.spec_enabled(),
    {
        FloatingWindowManager::new()
    }
}

} // verus!
