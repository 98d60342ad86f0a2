//! Shared stop control for the serving loop: a cross-thread flag plus the
//! number of an event descriptor that the host uses to wake the poller. The
//! descriptor itself is created, written and closed by the embedding program;
//! this type only carries its number and owns the flag.

use core::sync::atomic::AtomicBool;
use core::sync::atomic::Ordering;
use vstd::prelude::*;

verus! {

/// Stop signal shared between the serving loop and one controlling thread.
/// The flag is relaxed-atomic: two loads may disagree, so nothing is claimed
/// about the value read, only about what the methods do with it.
pub struct VpnController {
    event_fd: i32,
    should_stop: AtomicBool,
}

impl VpnController {
    /// A controller whose wake descriptor is `event_fd`; the flag starts
    /// lowered. The descriptor stays owned by the caller.
    pub fn new(event_fd: i32) -> (r: VpnController)
        ensures
            r.spec_event_fd() == event_fd,
    {
        VpnController { event_fd, should_stop: AtomicBool::new(false) }
    }

    pub closed spec fn spec_event_fd(&self) -> i32 {
        self.event_fd
    }

    /// The wake descriptor's number, for registering with a poller.
    pub fn event_fd(&self) -> (r: i32)
        ensures
            r == self.spec_event_fd(),
    {
        self.event_fd
    }

    /// Whether the controller has been told to stop. The flag is written by
    /// another thread, so the result is a snapshot and nothing more.
    pub fn get_should_stop(&self) -> bool {
        self.should_stop.load(Ordering::Relaxed)
    }

    /// Raises the stop flag. Idempotent. Waking the poller through the event
    /// descriptor is the caller's part.
    pub fn stop(&self) {
        self.should_stop.store(true, Ordering::Relaxed);
    }
}

} // verus!
