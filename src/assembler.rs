//! The frame assembler: rebuilds messages from bytes that arrive one at a
//! time, and drops a stalled frame when the idle timer fires.
use vstd::prelude::*;

use crate::msg::{decode, encode, frame_complete, lemma_round_trip, valid, Header, Message, HEADER_SIZE};

verus! {

/// Something that happens on the receive side of the bus.
#[derive(Clone, Copy, Debug, PartialEq, Eq, Structural)]
pub enum BusEvent {
    /// A byte arrived.
    Byte(u8),
    /// The idle timer fired: the line was silent for a byte's duration.
    Timeout,
}

/// Where the assembler stands in the current frame.
#[derive(Clone, Copy, Debug, PartialEq, Eq, Structural)]
pub enum AssemblerState {
    /// No byte buffered.
    Idle,
    /// Some, but not all, header bytes buffered.
    HeaderPartial,
    /// The header is whole; its payload is not.
    PayloadPartial,
}

/// The state that a buffer of pending bytes is in.
pub open spec fn state_of(buf: Seq<u8>) -> AssemblerState {
    if buf.len() == 0 {
        AssemblerState::Idle
    } else if buf.len() < HEADER_SIZE {
        AssemblerState::HeaderPartial
    } else {
        AssemblerState::PayloadPartial
    }
}

/// Pending bytes never form a whole frame: a whole frame is handed on at once.
pub open spec fn pending_ok(buf: Seq<u8>) -> bool {
    buf.len() < HEADER_SIZE || buf.len() < HEADER_SIZE + buf[6]
}

/// One byte arrives in front of `buf`: the new pending bytes, and the
/// message completed by this byte, if any.
pub open spec fn step(buf: Seq<u8>, byte: u8) -> (Seq<u8>, Option<(Header, Seq<u8>)>) {
    let nb = buf.push(byte);
    if frame_complete(nb) {
        (Seq::empty(), decode(nb))
    } else {
        (nb, None)
    }
}

pub open spec fn opt_seq(o: Option<(Header, Seq<u8>)>) -> Seq<(Header, Seq<u8>)> {
    match o {
        Some(m) => seq![m],
        None => Seq::empty(),
    }
}

/// A sequence of events in front of `buf`: the pending bytes at the end,
/// and the messages completed, in order.
pub open spec fn run(buf: Seq<u8>, evs: Seq<BusEvent>) -> (Seq<u8>, Seq<(Header, Seq<u8>)>)
    decreases evs.len(),
{
    if evs.len() == 0 {
        (buf, Seq::empty())
    } else {
        let prev = run(buf, evs.drop_last());
        match evs.last() {
            BusEvent::Byte(x) => {
                let s = step(prev.0, x);
                (s.0, prev.1 + opt_seq(s.1))
            },
            BusEvent::Timeout => (Seq::empty(), prev.1),
        }
    }
}

/// The events by which the bytes of `b` arrive, in order.
pub open spec fn byte_events(b: Seq<u8>) -> Seq<BusEvent> {
    b.map_values(|x: u8| BusEvent::Byte(x))
}

/// Incremental decoder of frames.
pub struct FrameAssembler {
    buf: Vec<u8>,
    recoveries: u64,
}

impl View for FrameAssembler {
    type V = Seq<u8>;

    /// The bytes of the frame in progress.
    closed spec fn view(&self) -> Seq<u8> {
        self.buf@
    }
}

impl FrameAssembler {
    pub closed spec fn wf(&self) -> bool {
        pending_ok(self.buf@)
    }

    /// How many times a timeout has discarded a frame in progress.
    pub closed spec fn recovery_count(&self) -> u64 {
        self.recoveries
    }

    pub fn new() -> (r: FrameAssembler)
        ensures
            r.wf(),
            r@ == Seq::<u8>::empty(),
            r.recovery_count() == 0,
    {
        FrameAssembler { buf: Vec::new(), recoveries: 0 }
    }

    pub fn state(&self) -> (r: AssemblerState)
        requires
            self.wf(),
        ensures
            r == state_of(self@),
    {
        if self.buf.len() == 0 {
            AssemblerState::Idle
        } else if self.buf.len() < HEADER_SIZE {
            AssemblerState::HeaderPartial
        } else {
            AssemblerState::PayloadPartial
        }
    }

    pub fn recoveries(&self) -> (r: u64)
        ensures
            r == self.recovery_count(),
    {
        self.recoveries
    }

    /// Takes one received byte; returns the message that it completes, if
    /// the completed frame decodes.
    pub fn push(&mut self, byte: u8) -> (r: Option<Message>)
        requires
            old(self).wf(),
        ensures
            final(self).wf(),
            final(self)@ == step(old(self)@, byte).0,
            final(self).recovery_count() == old(self).recovery_count(),
            match r {
                Some(m) => step(old(self)@, byte).1 == Some(m@) && m.wf(),
                None => step(old(self)@, byte).1.is_none(),
            },
    {
        self.buf.push(byte);
        if self.buf.len() >= HEADER_SIZE && self.buf.len() == HEADER_SIZE + self.buf[6] as usize {
            let res = Message::from_bytes(self.buf.as_slice());
            self.buf = Vec::new();
            match res {
                Ok(m) => Some(m),
                Err(_) => None,
            }
        } else {
            None
        }
    }

    /// The idle timer fired: the frame in progress, if any, is discarded.
    pub fn timeout(&mut self)
        requires
            old(self).wf(),
        ensures
            final(self).wf(),
            final(self)@ == Seq::<u8>::empty(),
            final(self).recovery_count() == if old(self)@.len() > 0 && old(self).recovery_count() < u64::MAX {
                (old(self).recovery_count() + 1) as u64
            } else {
                old(self).recovery_count()
            },
    {
        if self.buf.len() > 0 && self.recoveries < u64::MAX {
            self.recoveries = self.recoveries + 1;
        }
        self.buf = Vec::new();
    }

    /// Handles one event.
    pub fn handle(&mut self, ev: BusEvent) -> (r: Option<Message>)
        requires
            old(self).wf(),
        ensures
            final(self).wf(),
            final(self)@ == run(old(self)@, seq![ev]).0,
            match r {
                Some(m) => run(old(self)@, seq![ev]).1 == seq![m@] && m.wf(),
                None => run(old(self)@, seq![ev]).1 == Seq::<(Header, Seq<u8>)>::empty(),
            },
    {
        let ghost evs = seq![ev];
        let ghost before = self@;
        assert(evs.drop_last() =~= Seq::<BusEvent>::empty());
        assert(evs.last() == ev);
        assert(run(before, evs.drop_last()) == (before, Seq::<(Header, Seq<u8>)>::empty()));
        match ev {
            BusEvent::Byte(x) => {
                let r = self.push(x);
                assert(Seq::<(Header, Seq<u8>)>::empty() + opt_seq(step(before, x).1) =~= opt_seq(step(before, x).1));
                r
            },
            BusEvent::Timeout => {
                self.timeout();
                None
            },
        }
    }

    /// Handles events in order; returns the messages completed, in order.
    pub fn feed(&mut self, evs: &[BusEvent]) -> (r: Vec<Message>)
        requires
            old(self).wf(),
        ensures
            final(self).wf(),
            final(self)@ == run(old(self)@, evs@).0,
            r@.map_values(|m: Message| m@) == run(old(self)@, evs@).1,
            forall|i: int| 0 <= i < r@.len() ==> (#[trigger] r@[i]).wf(),
    {
        let ghost start = self@;
        let mut out: Vec<Message> = Vec::new();
        let mut i: usize = 0;
        assert(evs@.subrange(0, 0) =~= Seq::<BusEvent>::empty());
        assert(out@.map_values(|m: Message| m@) =~= Seq::<(Header, Seq<u8>)>::empty());
        while i < evs.len()
            invariant
                i <= evs@.len(),
                self.wf(),
                self@ == run(start, evs@.subrange(0, i as int)).0,
                out@.map_values(|m: Message| m@) == run(start, evs@.subrange(0, i as int)).1,
                forall|j: int| 0 <= j < out@.len() ==> (#[trigger] out@[j]).wf(),
            decreases evs@.len() - i,
        {
            let ghost before = self@;
            let ghost prefix = evs@.subrange(0, i as int);
            let ghost next = evs@.subrange(0, i + 1);
            assert(next.drop_last() =~= prefix);
            assert(next.last() == evs@[i as int]);
            let ghost old_out = out@;
            match evs[i] {
                BusEvent::Byte(x) => {
                    let r = self.push(x);
                    match r {
                        Some(m) => {
                            out.push(m);
                        },
                        None => {},
                    }
                    assert(out@.map_values(|m: Message| m@) =~= old_out.map_values(|m: Message| m@) + opt_seq(step(before, x).1));
                },
                BusEvent::Timeout => {
                    self.timeout();
                },
            }
            i = i + 1;
        }
        assert(evs@.subrange(0, i as int) =~= evs@);
        out
    }
}

/// Running `a` then `b` is running their concatenation.
pub proof fn lemma_run_append(buf: Seq<u8>, a: Seq<BusEvent>, b: Seq<BusEvent>)
    ensures
        run(buf, a + b) == (run(run(buf, a).0, b).0, run(buf, a).1 + run(run(buf, a).0, b).1),
    decreases b.len(),
{
    let mid = run(buf, a);
    if b.len() == 0 {
        assert(a + b =~= a);
        assert(mid.1 + Seq::<(Header, Seq<u8>)>::empty() =~= mid.1);
    } else {
        lemma_run_append(buf, a, b.drop_last());
        assert((a + b).drop_last() =~= a + b.drop_last());
        assert((a + b).last() == b.last());
        let prev = run(mid.0, b.drop_last());
        match b.last() {
            BusEvent::Byte(x) => {
                let s = step(prev.0, x);
                assert(mid.1 + prev.1 + opt_seq(s.1) =~= mid.1 + (prev.1 + opt_seq(s.1)));
            },
            BusEvent::Timeout => {},
        }
    }
}

/// Byte `k` of a valid message's frame, after the bytes before it: the
/// frame stays pending until its last byte, which completes the message.
pub proof fn lemma_frame_step(m: (Header, Seq<u8>), k: int)
    requires
        valid(m),
        0 <= k < encode(m).len(),
    ensures
        step(encode(m).take(k), encode(m)[k]) == if k + 1 < encode(m).len() {
            (encode(m).take(k + 1), None)
        } else {
            (Seq::<u8>::empty(), Some(m))
        },
{
    let b = encode(m);
    assert(b.take(k).push(b[k]) =~= b.take(k + 1));
    assert(b[6] == m.0.data_size);
    if k + 1 >= HEADER_SIZE {
        assert(b.take(k + 1)[6] == b[6]);
    }
    if k + 1 == b.len() {
        assert(b.take(k + 1) =~= b);
        lemma_round_trip(m);
    }
}

/// From an idle assembler, every proper prefix of a frame stays pending and
/// completes nothing.
pub proof fn lemma_frame_prefix(m: (Header, Seq<u8>), k: int)
    requires
        valid(m),
        0 <= k < encode(m).len(),
    ensures
        run(Seq::empty(), byte_events(encode(m).take(k))) == (encode(m).take(k), Seq::<(Header, Seq<u8>)>::empty()),
    decreases k,
{
    let b = encode(m);
    if k == 0 {
        assert(byte_events(b.take(0)) =~= Seq::<BusEvent>::empty());
        assert(b.take(0) =~= Seq::<u8>::empty());
    } else {
        lemma_frame_prefix(m, k - 1);
        lemma_frame_step(m, k - 1);
        let evs = byte_events(b.take(k));
        assert(evs.drop_last() =~= byte_events(b.take(k - 1)));
        assert(evs.last() == BusEvent::Byte(b[k - 1]));
        assert(Seq::<(Header, Seq<u8>)>::empty() + opt_seq(None) =~= Seq::<(Header, Seq<u8>)>::empty());
    }
}

/// Feeding the bytes of a valid message's frame to an idle assembler, one at
/// a time, completes exactly that message and leaves the assembler idle.
pub proof fn lemma_incremental(m: (Header, Seq<u8>))
    requires
        valid(m),
    ensures
        run(Seq::empty(), byte_events(encode(m))) == (Seq::<u8>::empty(), seq![m]),
{
    let b = encode(m);
    let n = b.len() as int;
    lemma_frame_prefix(m, n - 1);
    lemma_frame_step(m, n - 1);
    let evs = byte_events(b);
    assert(evs.drop_last() =~= byte_events(b.take(n - 1)));
    assert(evs.last() == BusEvent::Byte(b[n - 1]));
    assert(Seq::<(Header, Seq<u8>)>::empty() + seq![m] =~= seq![m]);
}

/// A frame cut short after its header, then a timeout, then a whole frame:
/// only the whole frame is completed, and the assembler ends idle.
pub proof fn lemma_timeout_recovery(m1: (Header, Seq<u8>), k: int, m2: (Header, Seq<u8>))
    requires
        valid(m1),
        valid(m2),
        HEADER_SIZE <= k < encode(m1).len(),
    ensures
        run(
            Seq::empty(),
            byte_events(encode(m1).take(k)) + seq![BusEvent::Timeout] + byte_events(encode(m2)),
        ) == (Seq::<u8>::empty(), seq![m2]),
{
    let a = byte_events(encode(m1).take(k));
    let t = seq![BusEvent::Timeout];
    let c = byte_events(encode(m2));
    lemma_frame_prefix(m1, k);
    lemma_run_append(Seq::empty(), a, t);
    assert(t.drop_last() =~= Seq::<BusEvent>::empty());
    assert(t.last() == BusEvent::Timeout);
    let pending = encode(m1).take(k);
    assert(run(pending, t.drop_last()) == (pending, Seq::<(Header, Seq<u8>)>::empty()));
    assert(run(pending, t) == (Seq::<u8>::empty(), Seq::<(Header, Seq<u8>)>::empty()));
    let empty_out = Seq::<(Header, Seq<u8>)>::empty();
    assert(empty_out + empty_out =~= empty_out);
    assert(run(Seq::empty(), a + t) == (Seq::<u8>::empty(), empty_out));
    lemma_run_append(Seq::empty(), a + t, c);
    lemma_incremental(m2);
    assert(empty_out + seq![m2] =~= seq![m2]);
}

} // verus!
