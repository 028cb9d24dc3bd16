//! Start/stop control of the listener.
//!
//! At most one listener runs at a time. Starting while one runs follows a
//! stop-then-start policy: the caller gets the running listener's shutdown
//! handle back and fires it, so the old accept loop and its bridges close
//! before the new listener takes over. Stopping when none runs does nothing.
use vstd::prelude::*;

verus! {

/// Holds the shutdown handle `S` of the running listener, if one runs.
pub struct ProxyState<S> {
    shutdown: Option<S>,
}

impl<S> View for ProxyState<S> {
    type V = Option<S>;

    /// The shutdown handle of the running listener, if one runs.
    closed spec fn view(&self) -> Option<S> {
        self.shutdown
    }
}

impl<S> ProxyState<S> {
    /// No listener running.
    pub fn new() -> (r: ProxyState<S>)
        ensures
            r@ is None,
    {
        ProxyState { shutdown: None }
    }

    /// Whether a listener runs.
    pub fn is_running(&self) -> (r: bool)
        ensures
            r == self@ is Some,
    {
        self.shutdown.is_some()
    }

    /// Records a listener that has just bound its socket, with its fresh
    /// shutdown handle. Returns the handle of the listener that ran before,
    /// which the caller must fire.
    pub fn start(&mut self, signal: S) -> (previous: Option<S>)
        ensures
            previous == old(self)@,
            final(self)@ == Some(signal),
    {
        let previous = self.shutdown.take();
        self.shutdown = Some(signal);
        previous
    }

    /// Ends the running listener: returns its shutdown handle, which the
    /// caller fires, or `None` when none runs.
    pub fn stop(&mut self) -> (r: Option<S>)
        ensures
            r == old(self)@,
            final(self)@ is None,
    {
        self.shutdown.take()
    }
}

/// What the accept loop saw.
#[derive(Debug, Clone, Copy, PartialEq, Eq)]
pub enum AcceptEvent {
    /// The shutdown signal fired.
    Shutdown,
    /// A client connected; its bridge runs on its own.
    Accepted,
    /// Accepting one connection failed; other connections are unaffected.
    AcceptFailed,
}

/// Whether the accept loop goes on after `e`: it stops on shutdown only.
pub fn keeps_accepting(e: AcceptEvent) -> (r: bool)
    ensures
        r == !(e is Shutdown),
{
    match e {
        AcceptEvent::Shutdown => false,
        _ => true,
    }
}

} // verus!
