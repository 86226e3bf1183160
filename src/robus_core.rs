//! The core: the module registry, dispatch of received messages, and the
//! send and receive paths under the bus arbiter.
//!
//! The core decides; the driver around it acts. After `send` returns a frame
//! the driver writes its bytes to the line, then calls `transmit_done`. It
//! calls `receive` for each byte the line delivers and hands each returned
//! delivery to the handler of its module, and it restarts the idle timer
//! after every `receive` and every `transmit_done`, calling `timeout` when
//! the timer fires.
use vstd::prelude::*;

use crate::arbiter::{Arbiter, Direction};
use crate::assembler::{
    byte_events, lemma_frame_step, lemma_incremental, lemma_run_append, lemma_timeout_recovery, opt_seq, run, step,
    AssemblerState, BusEvent, FrameAssembler,
};
use crate::module::{
    all_indices, lemma_broadcast_matches_all, matching, module_key, targets, Module, ModuleType, UNSET_ID,
};
use crate::msg::{encode, valid, Header, Message, TargetMode};

verus! {

/// A message to hand to the handler of the module at local index `module`.
pub struct Delivery {
    pub module: usize,
    pub msg: Message,
}

/// The line's invariant: a local transmission and the assembly of an inbound
/// frame never overlap, and either one holds the transmit lock.
pub open spec fn line_exclusive(transmitting: bool, assembling: bool, locked: bool) -> bool {
    &&& !(transmitting && assembling)
    &&& (transmitting || assembling) ==> locked
}

/// `header` with its source set to `id`.
pub open spec fn stamped(header: Header, id: u16) -> Header {
    Header {
        target_mode: header.target_mode,
        target: header.target,
        source: id,
        command: header.command,
        data_size: header.data_size,
    }
}

/// The deliveries are of message `m` to the modules listed by `targets`,
/// in that order.
pub open spec fn delivers(r: Seq<Delivery>, targets: Seq<usize>, m: (Header, Seq<u8>)) -> bool {
    &&& r.len() == targets.len()
    &&& forall|i: int| 0 <= i < r.len() ==> (#[trigger] r[i]).module == targets[i] && r[i].msg@ == m && r[i].msg.wf()
}

/// What a delivery hands over: the local index of the module, and the
/// message.
pub open spec fn delivery_view(d: Delivery) -> (usize, (Header, Seq<u8>)) {
    (d.module, d.msg@)
}

/// The deliveries of one message `m` completed against registry `reg`.
pub open spec fn deliveries_of_one(reg: Seq<(ModuleType, u16)>, m: (Header, Seq<u8>)) -> Seq<(usize, (Header, Seq<u8>))> {
    matching(reg, m.0).map_values(|k: usize| (k, m))
}

/// The deliveries of the messages `msgs`, completed in that order: for each,
/// one to every module it is for, in registry order.
pub open spec fn deliveries_of(reg: Seq<(ModuleType, u16)>, msgs: Seq<(Header, Seq<u8>)>) -> Seq<(usize, (Header, Seq<u8>))>
    decreases msgs.len(),
{
    if msgs.len() == 0 {
        Seq::empty()
    } else {
        deliveries_of(reg, msgs.drop_last()) + deliveries_of_one(reg, msgs.last())
    }
}

proof fn lemma_deliveries_of_single(reg: Seq<(ModuleType, u16)>, m: (Header, Seq<u8>))
    ensures
        deliveries_of(reg, seq![m]) == deliveries_of_one(reg, m),
{
    assert(seq![m].drop_last() =~= Seq::<(Header, Seq<u8>)>::empty());
    assert(seq![m].last() == m);
    assert(deliveries_of(reg, Seq::<(Header, Seq<u8>)>::empty()) == Seq::<(usize, (Header, Seq<u8>))>::empty());
    assert(Seq::<(usize, (Header, Seq<u8>))>::empty() + deliveries_of_one(reg, m) =~= deliveries_of_one(reg, m));
}

/// The bytes of a valid message's frame, received one by one by an idle
/// core, deliver that very message, every field included (its source and a
/// command outside the known set too), once to each module it is for, in
/// registry order, and leave the assembler idle.
pub proof fn lemma_core_frame(reg: Seq<(ModuleType, u16)>, m: (Header, Seq<u8>))
    requires
        valid(m),
    ensures
        run(Seq::empty(), byte_events(encode(m))).0 == Seq::<u8>::empty(),
        deliveries_of(reg, run(Seq::empty(), byte_events(encode(m))).1) == deliveries_of_one(reg, m),
{
    lemma_incremental(m);
    lemma_deliveries_of_single(reg, m);
}

/// Two valid frames received back to back by an idle core deliver the first
/// message, then the second, and leave the assembler idle: no byte of the
/// first is carried into the second.
pub proof fn lemma_core_two_frames(reg: Seq<(ModuleType, u16)>, m1: (Header, Seq<u8>), m2: (Header, Seq<u8>))
    requires
        valid(m1),
        valid(m2),
    ensures
        run(Seq::empty(), byte_events(encode(m1)) + byte_events(encode(m2))) == (Seq::<u8>::empty(), seq![m1, m2]),
        deliveries_of(reg, run(Seq::empty(), byte_events(encode(m1)) + byte_events(encode(m2))).1)
            == deliveries_of_one(reg, m1) + deliveries_of_one(reg, m2),
{
    lemma_incremental(m1);
    lemma_incremental(m2);
    lemma_run_append(Seq::empty(), byte_events(encode(m1)), byte_events(encode(m2)));
    assert(seq![m1] + seq![m2] =~= seq![m1, m2]);
    assert(seq![m1, m2].drop_last() =~= seq![m1]);
    lemma_deliveries_of_single(reg, m1);
}

/// A frame cut short after its header, a timeout, then a whole valid frame,
/// received by an idle core: only the second message is delivered, once to
/// each module it is for, and the assembler ends idle.
pub proof fn lemma_core_timeout_recovery(
    reg: Seq<(ModuleType, u16)>,
    m1: (Header, Seq<u8>),
    k: int,
    m2: (Header, Seq<u8>),
)
    requires
        valid(m1),
        valid(m2),
        crate::msg::HEADER_SIZE <= k < encode(m1).len(),
    ensures
        ({
            let evs = byte_events(encode(m1).take(k)) + seq![BusEvent::Timeout] + byte_events(encode(m2));
            &&& run(Seq::empty(), evs).0 == Seq::<u8>::empty()
            &&& deliveries_of(reg, run(Seq::empty(), evs).1) == deliveries_of_one(reg, m2)
        }),
{
    lemma_timeout_recovery(m1, k, m2);
    lemma_deliveries_of_single(reg, m2);
}

/// A broadcast sent from the module at local index `sender` of `reg`: its
/// frame, received byte by byte by an idle assembler, completes exactly one
/// message, whose command and payload are those sent and whose source is the
/// sender's bus id; that message is for every module of `reg`, each once, in
/// registry order.
pub proof fn lemma_broadcast_dispatch(reg: Seq<(ModuleType, u16)>, m: (Header, Seq<u8>), sender: int)
    requires
        valid(m),
        m.0.target_mode == TargetMode::Broadcast,
        reg.len() <= usize::MAX,
        0 <= sender < reg.len(),
    ensures
        ({
            let sent = (stamped(m.0, reg[sender].1), m.1);
            &&& run(Seq::empty(), byte_events(encode(sent))) == (Seq::<u8>::empty(), seq![sent])
            &&& deliveries_of(reg, seq![sent]) == all_indices(reg.len()).map_values(|k: usize| (k, sent))
            &&& matching(reg, sent.0) == all_indices(reg.len())
            &&& sent.0.command == m.0.command
            &&& sent.0.source == reg[sender].1
        }),
{
    let sent = (stamped(m.0, reg[sender].1), m.1);
    lemma_incremental(sent);
    lemma_broadcast_matches_all(reg, sent.0);
    lemma_deliveries_of_single(reg, sent);
}

/// The protocol engine of one node, with handlers of type `C`.
pub struct Core<C> {
    modules: Vec<Module<C>>,
    assembler: FrameAssembler,
    arbiter: Arbiter,
}

impl<C> Core<C> {
    /// Kind and bus id of each module, by local index.
    pub closed spec fn registry(&self) -> Seq<(ModuleType, u16)> {
        self.modules@.map_values(|m: Module<C>| module_key(m))
    }

    pub closed spec fn alias_of(&self, i: int) -> Seq<char> {
        self.modules@[i].alias@
    }

    /// The handler of the module at local index `i`.
    pub closed spec fn callback_of(&self, i: int) -> C {
        self.modules@[i].callback
    }

    /// The same modules as `prior`, in the same order, with the same kind,
    /// bus id, alias and handler.
    pub open spec fn keeps_modules(&self, prior: &Core<C>) -> bool {
        &&& self.registry() == prior.registry()
        &&& forall|i: int|
            0 <= i < self.registry().len() ==> self.alias_of(i) == prior.alias_of(i) && self.callback_of(i)
                == prior.callback_of(i)
    }

    /// Bytes of the inbound frame in progress.
    pub closed spec fn pending(&self) -> Seq<u8> {
        self.assembler@
    }

    pub closed spec fn locked(&self) -> bool {
        self.arbiter.locked()
    }

    pub closed spec fn sending(&self) -> bool {
        self.arbiter.sending()
    }

    pub closed spec fn dir(&self) -> Direction {
        self.arbiter.dir()
    }

    pub closed spec fn recovery_count(&self) -> u64 {
        self.assembler.recovery_count()
    }

    pub closed spec fn wf(&self) -> bool {
        &&& self.assembler.wf()
        &&& self.arbiter.wf()
        &&& line_exclusive(self.arbiter.sending(), self.assembler@.len() > 0, self.arbiter.locked())
    }

    /// A well-formed core keeps local transmission and inbound assembly
    /// apart, and holds the lock while either is under way; the line points
    /// out exactly while a transmission is under way.
    pub proof fn lemma_line_exclusive(&self)
        requires
            self.wf(),
        ensures
            line_exclusive(self.sending(), self.pending().len() > 0, self.locked()),
            (self.dir() == Direction::Transmit) == self.sending(),
    {
    }

    /// A core with no module, an idle line and an idle assembler.
    pub fn new() -> (r: Core<C>)
        ensures
            r.wf(),
            r.registry() == Seq::<(ModuleType, u16)>::empty(),
            r.pending() == Seq::<u8>::empty(),
            !r.locked(),
            !r.sending(),
            r.recovery_count() == 0,
    {
        let r = Core { modules: Vec::new(), assembler: FrameAssembler::new(), arbiter: Arbiter::new() };
        assert(r.registry() =~= Seq::<(ModuleType, u16)>::empty());
        r
    }

    /// Attaches a module with an unset bus id; returns its local index.
    pub fn create_module(&mut self, alias: &str, mod_type: ModuleType, cb: C) -> (r: usize)
        requires
            old(self).wf(),
            old(self).registry().len() < usize::MAX,
        ensures
            final(self).wf(),
            r == old(self).registry().len(),
            final(self).registry() == old(self).registry().push((mod_type, UNSET_ID)),
            final(self).alias_of(r as int) == alias@,
            final(self).callback_of(r as int) == cb,
            forall|i: int|
                0 <= i < r ==> final(self).alias_of(i) == old(self).alias_of(i) && final(self).callback_of(i)
                    == old(self).callback_of(i),
            final(self).pending() == old(self).pending(),
            final(self).locked() == old(self).locked(),
            final(self).sending() == old(self).sending(),
            final(self).dir() == old(self).dir(),
            final(self).recovery_count() == old(self).recovery_count(),
    {
        let module = Module { alias: alias.to_string(), mod_type, id: UNSET_ID, callback: cb };
        self.modules.push(module);
        assert(self.registry() =~= old(self).registry().push((mod_type, UNSET_ID)));
        self.modules.len() - 1
    }

    /// Assigns the bus id of the module at local index `mod_id`.
    pub fn set_module_id(&mut self, mod_id: usize, robus_id: u16)
        requires
            old(self).wf(),
            mod_id < old(self).registry().len(),
        ensures
            final(self).wf(),
            final(self).registry() == old(self).registry().update(
                mod_id as int,
                (old(self).registry()[mod_id as int].0, robus_id),
            ),
            forall|i: int|
                0 <= i < final(self).registry().len() ==> final(self).alias_of(i) == old(self).alias_of(i)
                    && final(self).callback_of(i) == old(self).callback_of(i),
            final(self).pending() == old(self).pending(),
            final(self).locked() == old(self).locked(),
            final(self).sending() == old(self).sending(),
            final(self).dir() == old(self).dir(),
            final(self).recovery_count() == old(self).recovery_count(),
    {
        let mut module = self.modules.remove(mod_id);
        module.id = robus_id;
        self.modules.insert(mod_id, module);
        assert(self.registry() =~= old(self).registry().update(
            mod_id as int,
            (old(self).registry()[mod_id as int].0, robus_id),
        ));
        assert forall|i: int| 0 <= i < self.registry().len() implies self.alias_of(i) == old(self).alias_of(i)
            && self.callback_of(i) == old(self).callback_of(i) by {
            assert(self.modules@[i].alias == old(self).modules@[i].alias);
            assert(self.modules@[i].callback == old(self).modules@[i].callback);
        }
    }

    /// The deliveries of `msg` to the modules it is for, in registry order,
    /// each with its own copy.
    pub fn dispatch(&self, msg: &Message) -> (r: Vec<Delivery>)
        requires
            msg.wf(),
        ensures
            delivers(r@, matching(self.registry(), msg.header), msg@),
    {
        let mut out: Vec<Delivery> = Vec::new();
        let mut i: usize = 0;
        assert(self.registry().take(0) =~= Seq::<(ModuleType, u16)>::empty());
        while i < self.modules.len()
            invariant
                msg.wf(),
                i <= self.modules@.len(),
                self.registry().len() == self.modules@.len(),
                delivers(out@, matching(self.registry().take(i as int), msg.header), msg@),
            decreases self.modules@.len() - i,
        {
            let ghost prefix = self.registry().take(i + 1);
            assert(prefix.drop_last() =~= self.registry().take(i as int));
            assert(prefix.last() == module_key(self.modules@[i as int]));
            let ghost before = out@;
            let m = &self.modules[i];
            if targets(m.mod_type, m.id, &msg.header) {
                out.push(Delivery { module: i, msg: msg.duplicate() });
            } else {
                assert(out@ == before);
            }
            i = i + 1;
        }
        assert(self.registry().take(i as int) =~= self.registry());
        out
    }

    /// Takes one byte from the bus. Unless a local frame is going out (the
    /// receiver is then off and the byte is not taken), the transmit lock is
    /// taken and the byte goes to the frame assembler; a frame it completes
    /// is delivered to the modules it is for.
    pub fn receive(&mut self, byte: u8) -> (r: Vec<Delivery>)
        requires
            old(self).wf(),
        ensures
            final(self).wf(),
            final(self).keeps_modules(old(self)),
            final(self).recovery_count() == old(self).recovery_count(),
            old(self).sending() ==> r@.len() == 0 && *final(self) == *old(self),
            !old(self).sending() ==> {
                &&& final(self).locked()
                &&& !final(self).sending()
                &&& final(self).dir() == old(self).dir()
                &&& final(self).pending() == step(old(self).pending(), byte).0
                &&& match step(old(self).pending(), byte).1 {
                    Some(m) => delivers(r@, matching(old(self).registry(), m.0), m),
                    None => r@.len() == 0,
                }
            },
    {
        if !self.arbiter.byte_seen() {
            return Vec::new();
        }
        match self.assembler.push(byte) {
            Some(msg) => self.dispatch(&msg),
            None => Vec::new(),
        }
    }

    /// Takes a sequence of events from the line, in order: each byte as by
    /// `receive`, each firing of the idle timer as by `timeout`. Returns the
    /// deliveries of every frame completed, in order.
    pub fn receive_events(&mut self, evs: &[BusEvent]) -> (r: Vec<Delivery>)
        requires
            old(self).wf(),
        ensures
            final(self).wf(),
            final(self).keeps_modules(old(self)),
            forall|i: int| 0 <= i < r@.len() ==> (#[trigger] r@[i]).msg.wf(),
            old(self).sending() ==> r@.len() == 0 && *final(self) == *old(self),
            !old(self).sending() ==> {
                &&& !final(self).sending()
                &&& final(self).dir() == old(self).dir()
                &&& final(self).pending() == run(old(self).pending(), evs@).0
                &&& r@.map_values(|d: Delivery| delivery_view(d)) == deliveries_of(
                    old(self).registry(),
                    run(old(self).pending(), evs@).1,
                )
                &&& evs@.len() == 0 ==> final(self).locked() == old(self).locked()
                &&& evs@.len() > 0 ==> final(self).locked() == (evs@.last() != BusEvent::Timeout)
            },
    {
        let ghost start = self.pending();
        let ghost reg = self.registry();
        let mut out: Vec<Delivery> = Vec::new();
        if self.arbiter.is_sending() {
            return out;
        }
        let mut i: usize = 0;
        assert(evs@.take(0) =~= Seq::<BusEvent>::empty());
        assert(out@.map_values(|d: Delivery| delivery_view(d)) =~= Seq::<(usize, (Header, Seq<u8>))>::empty());
        while i < evs.len()
            invariant
                self.wf(),
                self.keeps_modules(old(self)),
                self.registry() == reg,
                !self.sending(),
                self.dir() == old(self).dir(),
                i <= evs@.len(),
                self.pending() == run(start, evs@.take(i as int)).0,
                out@.map_values(|d: Delivery| delivery_view(d)) == deliveries_of(reg, run(start, evs@.take(i as int)).1),
                forall|j: int| 0 <= j < out@.len() ==> (#[trigger] out@[j]).msg.wf(),
                i == 0 ==> self.locked() == old(self).locked(),
                i > 0 ==> self.locked() == (evs@[i - 1] != BusEvent::Timeout),
            decreases evs@.len() - i,
        {
            let ghost prefix = evs@.take(i as int);
            let ghost next = evs@.take(i + 1);
            let ghost prev = run(start, prefix);
            assert(next.drop_last() =~= prefix);
            assert(next.last() == evs@[i as int]);
            let ghost old_view = out@.map_values(|d: Delivery| delivery_view(d));
            match evs[i] {
                BusEvent::Byte(x) => {
                    let mut ds = self.receive(x);
                    let ghost ds_seq = ds@;
                    let ghost done = step(prev.0, x).1;
                    out.append(&mut ds);
                    proof {
                        match done {
                            Some(m) => {
                                assert(ds_seq.map_values(|d: Delivery| delivery_view(d)) =~= deliveries_of_one(reg, m));
                                assert((prev.1 + opt_seq(done)).drop_last() =~= prev.1);
                            },
                            None => {
                                assert(prev.1 + opt_seq(done) =~= prev.1);
                            },
                        }
                    }
                    assert(out@.map_values(|d: Delivery| delivery_view(d)) =~= old_view + ds_seq.map_values(
                        |d: Delivery| delivery_view(d),
                    ));
                },
                BusEvent::Timeout => {
                    self.timeout();
                },
            }
            i = i + 1;
        }
        assert(evs@.take(i as int) =~= evs@);
        out
    }

    /// Starts sending `msg` from the module at local index `mod_id`.
    ///
    /// The source of `msg` is always set to that module's bus id. If the
    /// line is free it is taken, turned to transmit, and the frame to write
    /// is returned; otherwise nothing else changes and `None` asks the
    /// caller to wait and call again.
    pub fn send(&mut self, mod_id: usize, msg: &mut Message) -> (r: Option<Vec<u8>>)
        requires
            old(self).wf(),
            old(msg).wf(),
            mod_id < old(self).registry().len(),
        ensures
            final(self).wf(),
            final(msg).wf(),
            final(msg).header == stamped(old(msg).header, old(self).registry()[mod_id as int].1),
            final(msg).data@ == old(msg).data@,
            r.is_some() == !old(self).locked(),
            match r {
                Some(frame) => {
                    &&& frame@ == encode(final(msg)@)
                    &&& final(self).locked()
                    &&& final(self).sending()
                    &&& final(self).dir() == Direction::Transmit
                    &&& final(self).keeps_modules(old(self))
                    &&& final(self).pending() == old(self).pending()
                    &&& final(self).recovery_count() == old(self).recovery_count()
                },
                None => *final(self) == *old(self),
            },
    {
        let id = self.modules[mod_id].id;
        assert(id == self.registry()[mod_id as int].1);
        msg.header.source = id;
        if self.arbiter.try_acquire() {
            Some(msg.to_bytes())
        } else {
            None
        }
    }

    /// Sends `msg` from the module at local index `mod_id` back through this
    /// core's own receive path, as a line that echoes every byte would: the
    /// frame is taken as by `send`, then each of its bytes is received in
    /// order. Returns the deliveries of the frame, or `None` if the line was
    /// not free, in which case nothing but the source of `msg` changes.
    pub fn loopback_send(&mut self, mod_id: usize, msg: &mut Message) -> (r: Option<Vec<Delivery>>)
        requires
            old(self).wf(),
            old(msg).wf(),
            mod_id < old(self).registry().len(),
        ensures
            final(self).wf(),
            final(msg).wf(),
            final(msg).header == stamped(old(msg).header, old(self).registry()[mod_id as int].1),
            final(msg).data@ == old(msg).data@,
            r.is_some() == !old(self).locked(),
            match r {
                Some(ds) => {
                    &&& delivers(ds@, matching(old(self).registry(), final(msg).header), final(msg)@)
                    &&& ds@.map_values(|d: Delivery| delivery_view(d)) == deliveries_of_one(old(self).registry(), final(msg)@)
                    &&& final(self).locked()
                    &&& !final(self).sending()
                    &&& final(self).dir() == Direction::Receive
                    &&& final(self).pending() == Seq::<u8>::empty()
                    &&& final(self).keeps_modules(old(self))
                    &&& final(self).recovery_count() == old(self).recovery_count()
                },
                None => *final(self) == *old(self),
            },
    {
        let frame = match self.send(mod_id, msg) {
            Some(frame) => frame,
            None => {
                return None;
            },
        };
        self.transmit_done();
        let ghost sent = msg@;
        let ghost reg = self.registry();
        let ghost count = self.recovery_count();
        let mut out: Vec<Delivery> = Vec::new();
        let mut i: usize = 0;
        assert(frame@.take(0) =~= Seq::<u8>::empty());
        while i < frame.len()
            invariant
                self.wf(),
                crate::msg::valid(sent),
                frame@ == encode(sent),
                i <= frame@.len(),
                self.locked(),
                !self.sending(),
                self.dir() == Direction::Receive,
                self.registry() == reg,
                self.keeps_modules(old(self)),
                self.recovery_count() == count,
                i < frame@.len() ==> self.pending() == frame@.take(i as int) && out@.len() == 0,
                i == frame@.len() ==> self.pending() == Seq::<u8>::empty() && delivers(out@, matching(reg, sent.0), sent),
            decreases frame@.len() - i,
        {
            proof {
                lemma_frame_step(sent, i as int);
            }
            out = self.receive(frame[i]);
            i = i + 1;
        }
        assert(out@.map_values(|d: Delivery| delivery_view(d)) =~= deliveries_of_one(reg, sent));
        Some(out)
    }

    /// The last byte of the frame from `send` has left: the line turns back
    /// to receive. The lock stays held until the idle timer fires, which
    /// leaves the idle gap after the frame.
    pub fn transmit_done(&mut self)
        requires
            old(self).wf(),
        ensures
            final(self).wf(),
            !final(self).sending(),
            final(self).dir() == Direction::Receive,
            final(self).locked() == old(self).locked(),
            final(self).keeps_modules(old(self)),
            final(self).pending() == old(self).pending(),
            final(self).recovery_count() == old(self).recovery_count(),
    {
        self.arbiter.transmit_done();
    }

    /// The idle timer fired. Unless a local frame is going out, the frame in
    /// progress, if any, is discarded and the line is free again.
    pub fn timeout(&mut self)
        requires
            old(self).wf(),
        ensures
            final(self).wf(),
            old(self).sending() ==> *final(self) == *old(self),
            !old(self).sending() ==> {
                &&& !final(self).locked()
                &&& !final(self).sending()
                &&& final(self).dir() == Direction::Receive
                &&& final(self).pending() == Seq::<u8>::empty()
                &&& final(self).keeps_modules(old(self))
                &&& final(self).recovery_count() == if old(self).pending().len() > 0 && old(self).recovery_count() < u64::MAX {
                    (old(self).recovery_count() + 1) as u64
                } else {
                    old(self).recovery_count()
                }
            },
    {
        if self.arbiter.idle_elapsed() {
            self.assembler.timeout();
        }
    }

    /// Which way the line should point.
    pub fn direction(&self) -> (r: Direction)
        ensures
            r == self.dir(),
    {
        self.arbiter.direction()
    }

    pub fn is_locked(&self) -> (r: bool)
        ensures
            r == self.locked(),
    {
        self.arbiter.is_locked()
    }

    pub fn is_sending(&self) -> (r: bool)
        ensures
            r == self.sending(),
    {
        self.arbiter.is_sending()
    }

    /// Where the frame assembler stands.
    pub fn assembler_state(&self) -> (r: AssemblerState)
        requires
            self.wf(),
        ensures
            r == crate::assembler::state_of(self.pending()),
    {
        self.assembler.state()
    }

    /// How many times a timeout has discarded an inbound frame in progress.
    pub fn recoveries(&self) -> (r: u64)
        ensures
            r == self.recovery_count(),
    {
        self.assembler.recoveries()
    }

    pub fn module_count(&self) -> (r: usize)
        ensures
            r == self.registry().len(),
    {
        self.modules.len()
    }

    pub fn module_id(&self, mod_id: usize) -> (r: u16)
        requires
            mod_id < self.registry().len(),
        ensures
            r == self.registry()[mod_id as int].1,
    {
        self.modules[mod_id].id
    }

    pub fn module_type(&self, mod_id: usize) -> (r: ModuleType)
        requires
            mod_id < self.registry().len(),
        ensures
            r == self.registry()[mod_id as int].0,
    {
        self.modules[mod_id].mod_type
    }

    pub fn alias(&self, mod_id: usize) -> (r: &str)
        requires
            mod_id < self.registry().len(),
        ensures
            r@ == self.alias_of(mod_id as int),
    {
        self.modules[mod_id].alias.as_str()
    }

    /// The handler of the module at local index `mod_id`.
    pub fn callback(&self, mod_id: usize) -> (r: &C)
        requires
            mod_id < self.registry().len(),
        ensures
            *r == self.callback_of(mod_id as int),
    {
        &self.modules[mod_id].callback
    }
}

} // verus!
