//! The lifecycle discipline of one native handle.
//!
//! A native handle may have a callback context registered on it, and the
//! native stack can deliver spurious callbacks referencing that context even
//! after a close has been requested. Teardown therefore has a fixed order:
//! first clear the context association, only then close — and close exactly
//! once. This module is the bookkeeping that order is proved against; the
//! native calls themselves stay with the layer that owns the raw handles.

use vstd::prelude::*;

verus! {

#[derive(Clone, Copy, Debug, PartialEq, Eq, Structural)]
pub enum HandleState {
    /// The handle is live and a callback context may be associated.
    Registered,
    /// The context association has been cleared; no callback can reach a
    /// dangling context any more.
    ContextCleared,
    /// The native handle has been released.
    Closed,
}

/// Tracks one native handle through register, clear and close.
pub struct HandleLifecycle {
    state: HandleState,
}

impl HandleLifecycle {
    pub closed spec fn state(&self) -> HandleState {
        self.state
    }

    /// A fresh handle with its callback context installed.
    pub fn register() -> (r: Self)
        ensures
            r.state() == HandleState::Registered,
    {
        HandleLifecycle { state: HandleState::Registered }
    }

    /// Clears the context association; the first step of teardown.
    pub fn clear_context(&mut self)
        requires
            old(self).state() == HandleState::Registered,
        ensures
            final(self).state() == HandleState::ContextCleared,
    {
        self.state = HandleState::ContextCleared;
    }

    /// Releases the handle. Only a handle whose context has been cleared can
    /// be closed, and only once: a close out of order or a second close does
    /// not verify.
    pub fn close(&mut self)
        requires
            old(self).state() == HandleState::ContextCleared,
        ensures
            final(self).state() == HandleState::Closed,
    {
        self.state = HandleState::Closed;
    }

    /// Whether the handle has been released.
    pub fn is_closed(&self) -> (r: bool)
        ensures
            r == (self.state() == HandleState::Closed),
    {
        match self.state {
            HandleState::Closed => true,
            _ => false,
        }
    }

    /// Runs the whole teardown from the live state: afterwards the handle is
    /// closed, and it was closed exactly once, after the context was cleared.
    pub fn teardown(&mut self)
        requires
            old(self).state() == HandleState::Registered,
        ensures
            final(self).state() == HandleState::Closed,
    {
        self.clear_context();
        self.close();
    }
}

} // verus!
