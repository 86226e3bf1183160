//! The bus arbiter: the transmit lock and the direction of the half-duplex
//! line.
//!
//! The lock is taken when a local send begins and whenever a byte arrives
//! from the bus; it is released only when the idle timer fires, which after a
//! send also provides the idle gap before the line is free again.
use vstd::prelude::*;

verus! {

/// Which way the transceiver drives the line.
#[derive(Clone, Copy, Debug, PartialEq, Eq, Structural)]
pub enum Direction {
    Receive,
    Transmit,
}

pub struct Arbiter {
    lock: bool,
    transmitting: bool,
    direction: Direction,
}

impl Arbiter {
    pub closed spec fn locked(&self) -> bool {
        self.lock
    }

    /// A local frame is being put on the line.
    pub closed spec fn sending(&self) -> bool {
        self.transmitting
    }

    pub closed spec fn dir(&self) -> Direction {
        self.direction
    }

    /// A transmission holds the lock, and the line points out exactly while
    /// one is in progress.
    pub open spec fn wf(&self) -> bool {
        &&& self.sending() ==> self.locked()
        &&& (self.dir() == Direction::Transmit) == self.sending()
    }

    pub fn new() -> (r: Arbiter)
        ensures
            r.wf(),
            !r.locked(),
            !r.sending(),
    {
        Arbiter { lock: false, transmitting: false, direction: Direction::Receive }
    }

    pub fn is_locked(&self) -> (r: bool)
        ensures
            r == self.locked(),
    {
        self.lock
    }

    pub fn is_sending(&self) -> (r: bool)
        ensures
            r == self.sending(),
    {
        self.transmitting
    }

    pub fn direction(&self) -> (r: Direction)
        ensures
            r == self.dir(),
    {
        self.direction
    }

    /// Takes the line for a local send if it is free: the lock is taken and
    /// the line turned to transmit. Returns whether it was free.
    pub fn try_acquire(&mut self) -> (r: bool)
        requires
            old(self).wf(),
        ensures
            final(self).wf(),
            r == !old(self).locked(),
            r ==> final(self).locked() && final(self).sending(),
            !r ==> *final(self) == *old(self),
    {
        if self.lock {
            false
        } else {
            self.lock = true;
            self.transmitting = true;
            self.direction = Direction::Transmit;
            true
        }
    }

    /// The last byte of a local frame left: the line turns back to receive.
    /// The lock stays held until the idle timer fires.
    pub fn transmit_done(&mut self)
        requires
            old(self).wf(),
        ensures
            final(self).wf(),
            !final(self).sending(),
            final(self).locked() == old(self).locked(),
    {
        self.transmitting = false;
        self.direction = Direction::Receive;
    }

    /// A byte came from the bus. While the line points out the receiver is
    /// off and the byte is not taken; otherwise another node may be sending,
    /// so the lock is taken. Returns whether the byte is taken.
    pub fn byte_seen(&mut self) -> (r: bool)
        requires
            old(self).wf(),
        ensures
            final(self).wf(),
            r == !old(self).sending(),
            r ==> final(self).locked() && !final(self).sending(),
            !r ==> *final(self) == *old(self),
    {
        if self.transmitting {
            false
        } else {
            self.lock = true;
            true
        }
    }

    /// The idle timer fired. Unless a local frame is going out, the line has
    /// been silent for a byte's duration and the lock is released. Returns
    /// whether it was.
    pub fn idle_elapsed(&mut self) -> (r: bool)
        requires
            old(self).wf(),
        ensures
            final(self).wf(),
            r == !old(self).sending(),
            r ==> !final(self).locked() && !final(self).sending(),
            !r ==> *final(self) == *old(self),
    {
        if self.transmitting {
            false
        } else {
            self.lock = false;
            true
        }
    }
}

} // verus!
