//! A single-slot mailbox that hands messages from the reception handlers to
//! the main loop.
//!
//! The slot keeps only the latest message: sending over an unread message
//! replaces it. The two ends are capabilities; the slot itself is an explicit
//! value that both ends borrow.
use vstd::prelude::*;

use crate::msg::{Header, Message};

verus! {

/// The sending end.
pub struct Tx {}

/// The receiving end.
pub struct Rx {}

/// The slot shared by the two ends.
pub struct Mailbox {
    slot: Option<Message>,
}

impl Mailbox {
    /// The message waiting in the slot, if any.
    pub closed spec fn held(&self) -> Option<(Header, Seq<u8>)> {
        match self.slot {
            Some(m) => Some(m@),
            None => None,
        }
    }
}

/// A pair of ends and their empty slot.
pub fn message_queue() -> (r: (Tx, Rx, Mailbox))
    ensures
        r.2.held().is_none(),
{
    let tx = Tx {};
    let rx = Rx {};
    (tx, rx, Mailbox { slot: None })
}

impl Tx {
    /// Puts `msg` in the slot, replacing any unread message.
    pub fn send(&self, q: &mut Mailbox, msg: Message)
        ensures
            final(q).held() == Some(msg@),
    {
        q.slot = Some(msg);
    }
}

impl Rx {
    /// Takes the message waiting in the slot, if any; the slot is empty
    /// afterwards.
    pub fn recv(&self, q: &mut Mailbox) -> (r: Option<Message>)
        ensures
            final(q).held().is_none(),
            match r {
                Some(m) => old(q).held() == Some(m@),
                None => old(q).held().is_none(),
            },
    {
        q.slot.take()
    }
}

} // verus!
