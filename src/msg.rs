//! The wire message: header fields, payload, and their frame encoding.
//!
//! Frame layout, little-endian 16-bit fields:
//! `[target_mode:1][target:2][source:2][command:1][data_size:1][data: data_size]`.
use vstd::prelude::*;

verus! {

/// Number of bytes in a serialized header.
pub const HEADER_SIZE: usize = 7;

/// Largest payload a frame can carry: its size travels in one byte.
pub const MAX_DATA_SIZE: usize = 255;

/// How the `target` field of a message is interpreted.
#[derive(Clone, Copy, Debug, PartialEq, Eq, Structural)]
pub enum TargetMode {
    /// Every module on the bus.
    Broadcast,
    /// The module whose bus id equals `target`.
    Id,
    /// The modules whose type code equals `target`.
    Type,
    /// The modules of group `target`.
    Group,
}

/// Wire code of a target mode.
pub open spec fn mode_code(m: TargetMode) -> u8 {
    match m {
        TargetMode::Broadcast => 0,
        TargetMode::Id => 1,
        TargetMode::Type => 2,
        TargetMode::Group => 3,
    }
}

/// Target mode of a wire code, if the code is one.
pub open spec fn mode_of_code(c: u8) -> Option<TargetMode> {
    if c == 0 {
        Some(TargetMode::Broadcast)
    } else if c == 1 {
        Some(TargetMode::Id)
    } else if c == 2 {
        Some(TargetMode::Type)
    } else if c == 3 {
        Some(TargetMode::Group)
    } else {
        None
    }
}

impl TargetMode {
    pub fn code(self) -> (r: u8)
        ensures
            r == mode_code(self),
    {
        match self {
            TargetMode::Broadcast => 0,
            TargetMode::Id => 1,
            TargetMode::Type => 2,
            TargetMode::Group => 3,
        }
    }

    pub fn from_code(c: u8) -> (r: Option<TargetMode>)
        ensures
            r == mode_of_code(c),
    {
        if c == 0 {
            Some(TargetMode::Broadcast)
        } else if c == 1 {
            Some(TargetMode::Id)
        } else if c == 2 {
            Some(TargetMode::Type)
        } else if c == 3 {
            Some(TargetMode::Group)
        } else {
            None
        }
    }
}

/// The protocol verb of a message.
///
/// Codes outside the known set travel as `Other(code)`, so that applications
/// can extend the protocol; `Other` never holds a known code.
#[derive(Clone, Copy, Debug, PartialEq, Eq, Structural)]
pub enum Command {
    Identify,
    PublishState,
    SetId,
    Ping,
    Other(u8),
}

/// Number of command codes with a name of their own.
pub const KNOWN_COMMANDS: u8 = 4;

/// Wire code of a command.
pub open spec fn command_code(c: Command) -> u8 {
    match c {
        Command::Identify => 0,
        Command::PublishState => 1,
        Command::SetId => 2,
        Command::Ping => 3,
        Command::Other(x) => x,
    }
}

/// Command of a wire code: every code has one.
pub open spec fn command_of_code(c: u8) -> Command {
    if c == 0 {
        Command::Identify
    } else if c == 1 {
        Command::PublishState
    } else if c == 2 {
        Command::SetId
    } else if c == 3 {
        Command::Ping
    } else {
        Command::Other(c)
    }
}

impl Command {
    /// A command is well formed when it has exactly one wire code.
    pub open spec fn wf(self) -> bool {
        match self {
            Command::Other(x) => x >= KNOWN_COMMANDS,
            _ => true,
        }
    }

    pub fn code(self) -> (r: u8)
        ensures
            r == command_code(self),
    {
        match self {
            Command::Identify => 0,
            Command::PublishState => 1,
            Command::SetId => 2,
            Command::Ping => 3,
            Command::Other(x) => x,
        }
    }

    pub fn from_code(c: u8) -> (r: Command)
        ensures
            r == command_of_code(c),
            r.wf(),
            command_code(r) == c,
    {
        if c == 0 {
            Command::Identify
        } else if c == 1 {
            Command::PublishState
        } else if c == 2 {
            Command::SetId
        } else if c == 3 {
            Command::Ping
        } else {
            Command::Other(c)
        }
    }
}

/// The fixed-size part of a message.
#[derive(Clone, Copy, Debug, PartialEq, Eq, Structural)]
pub struct Header {
    pub target_mode: TargetMode,
    pub target: u16,
    /// Bus id of the sender; set by the sending core, never by the caller.
    pub source: u16,
    pub command: Command,
    pub data_size: u8,
}

/// A header with its payload.
#[derive(Clone, Debug)]
pub struct Message {
    pub header: Header,
    pub data: Vec<u8>,
}

impl View for Message {
    type V = (Header, Seq<u8>);

    open spec fn view(&self) -> (Header, Seq<u8>) {
        (self.header, self.data@)
    }
}

/// A message model is valid when its command has one code and its payload
/// has the declared size.
pub open spec fn valid(m: (Header, Seq<u8>)) -> bool {
    &&& m.0.command.wf()
    &&& m.1.len() == m.0.data_size
}

/// Low byte, then high byte.
pub open spec fn u16_bytes(v: u16) -> Seq<u8> {
    seq![(v % 256) as u8, (v / 256) as u8]
}

pub open spec fn u16_of(lo: u8, hi: u8) -> u16 {
    (lo + hi * 256) as u16
}

pub open spec fn header_bytes(h: Header) -> Seq<u8> {
    seq![mode_code(h.target_mode)] + u16_bytes(h.target) + u16_bytes(h.source) + seq![
        command_code(h.command),
        h.data_size,
    ]
}

/// The frame of a message: its header bytes, then its payload.
pub open spec fn encode(m: (Header, Seq<u8>)) -> Seq<u8> {
    header_bytes(m.0) + m.1
}

/// A byte sequence is a whole frame when it holds a header and exactly the
/// payload that the header declares.
pub open spec fn frame_complete(b: Seq<u8>) -> bool {
    b.len() >= HEADER_SIZE && b.len() == HEADER_SIZE + b[6]
}

/// The message a frame holds, if the bytes are a frame.
pub open spec fn decode(b: Seq<u8>) -> Option<(Header, Seq<u8>)> {
    if !frame_complete(b) {
        None
    } else {
        match mode_of_code(b[0]) {
            None => None,
            Some(mode) => Some(
                (
                    Header {
                        target_mode: mode,
                        target: u16_of(b[1], b[2]),
                        source: u16_of(b[3], b[4]),
                        command: command_of_code(b[5]),
                        data_size: b[6],
                    },
                    b.subrange(HEADER_SIZE as int, b.len() as int),
                ),
            ),
        }
    }
}

/// Why a byte sequence is not a frame.
#[derive(Clone, Copy, Debug, PartialEq, Eq, Structural)]
pub enum FramingError {
    /// Fewer bytes than a header.
    Truncated,
    /// The payload is not of the size the header declares.
    SizeMismatch,
    /// The first byte names no target mode.
    UnknownTargetMode,
}

/// The error that `decode` failing on `b` is reported as.
pub open spec fn decode_error(b: Seq<u8>) -> FramingError {
    if b.len() < HEADER_SIZE {
        FramingError::Truncated
    } else if b.len() != HEADER_SIZE + b[6] {
        FramingError::SizeMismatch
    } else {
        FramingError::UnknownTargetMode
    }
}

fn u16_lo(v: u16) -> (r: u8)
    ensures
        r == (v % 256) as u8,
{
    (v % 256) as u8
}

fn u16_hi(v: u16) -> (r: u8)
    ensures
        r == (v / 256) as u8,
{
    (v / 256) as u8
}

fn u16_from(lo: u8, hi: u8) -> (r: u16)
    ensures
        r == u16_of(lo, hi),
{
    (lo as u16) + (hi as u16) * 256
}

/// The two bytes of a 16-bit field give the field back.
pub proof fn lemma_u16_round_trip(v: u16)
    ensures
        u16_of((v % 256) as u8, (v / 256) as u8) == v,
{
}

/// Copies a byte sequence into a new vector.
fn copy_bytes(b: &[u8]) -> (r: Vec<u8>)
    ensures
        r@ == b@,
{
    let mut r: Vec<u8> = Vec::new();
    let mut i: usize = 0;
    while i < b.len()
        invariant
            i <= b@.len(),
            r@ == b@.subrange(0, i as int),
        decreases b@.len() - i,
    {
        r.push(b[i]);
        i = i + 1;
        assert(r@ =~= b@.subrange(0, i as int));
    }
    assert(r@ =~= b@);
    r
}

impl Message {
    /// Whether the message satisfies the invariant of its type.
    pub open spec fn wf(&self) -> bool {
        valid(self@)
    }

    /// A message with the given addressing, command and payload; its source
    /// is 0 until a core sends it.
    pub fn new(target_mode: TargetMode, target: u16, command: Command, data: &[u8]) -> (r: Message)
        requires
            data@.len() <= MAX_DATA_SIZE,
            command.wf(),
        ensures
            r.wf(),
            r.header == (Header {
                target_mode,
                target,
                source: 0,
                command,
                data_size: data@.len() as u8,
            }),
            r.data@ == data@,
    {
        Message {
            header: Header {
                target_mode,
                target,
                source: 0,
                command,
                data_size: data.len() as u8,
            },
            data: copy_bytes(data),
        }
    }

    /// A message for the module whose bus id is `target`.
    pub fn id(target: u16, command: Command, data: &[u8]) -> (r: Message)
        requires
            data@.len() <= MAX_DATA_SIZE,
            command.wf(),
        ensures
            r.wf(),
            r.header == (Header {
                target_mode: TargetMode::Id,
                target,
                source: 0,
                command,
                data_size: data@.len() as u8,
            }),
            r.data@ == data@,
    {
        Message::new(TargetMode::Id, target, command, data)
    }

    /// A message for every module on the bus.
    pub fn broadcast(command: Command, data: &[u8]) -> (r: Message)
        requires
            data@.len() <= MAX_DATA_SIZE,
            command.wf(),
        ensures
            r.wf(),
            r.header == (Header {
                target_mode: TargetMode::Broadcast,
                target: 0,
                source: 0,
                command,
                data_size: data@.len() as u8,
            }),
            r.data@ == data@,
    {
        Message::new(TargetMode::Broadcast, 0, command, data)
    }

    /// An independent copy of the message.
    pub fn duplicate(&self) -> (r: Message)
        ensures
            r@ == self@,
    {
        Message { header: self.header, data: copy_bytes(self.data.as_slice()) }
    }

    /// The frame of the message.
    pub fn to_bytes(&self) -> (r: Vec<u8>)
        requires
            self.wf(),
        ensures
            r@ == encode(self@),
    {
        let h = self.header;
        let mut r: Vec<u8> = Vec::new();
        r.push(h.target_mode.code());
        r.push(u16_lo(h.target));
        r.push(u16_hi(h.target));
        r.push(u16_lo(h.source));
        r.push(u16_hi(h.source));
        r.push(h.command.code());
        r.push(h.data_size);
        assert(r@ =~= header_bytes(h));
        let mut i: usize = 0;
        while i < self.data.len()
            invariant
                i <= self.data@.len(),
                r@ == header_bytes(h) + self.data@.subrange(0, i as int),
            decreases self.data@.len() - i,
        {
            r.push(self.data[i]);
            i = i + 1;
            assert(r@ =~= header_bytes(h) + self.data@.subrange(0, i as int));
        }
        assert(self.data@.subrange(0, i as int) =~= self.data@);
        r
    }

    /// The message that a whole frame holds.
    pub fn from_bytes(b: &[u8]) -> (r: Result<Message, FramingError>)
        ensures
            match r {
                Ok(m) => decode(b@) == Some(m@) && m.wf(),
                Err(e) => decode(b@).is_none() && e == decode_error(b@),
            },
    {
        if b.len() < HEADER_SIZE {
            return Err(FramingError::Truncated);
        }
        if b.len() != HEADER_SIZE + b[6] as usize {
            return Err(FramingError::SizeMismatch);
        }
        let mode = match TargetMode::from_code(b[0]) {
            Some(mode) => mode,
            None => {
                return Err(FramingError::UnknownTargetMode);
            },
        };
        let mut data: Vec<u8> = Vec::new();
        let mut i: usize = HEADER_SIZE;
        while i < b.len()
            invariant
                HEADER_SIZE <= i <= b@.len(),
                data@ == b@.subrange(HEADER_SIZE as int, i as int),
            decreases b@.len() - i,
        {
            data.push(b[i]);
            i = i + 1;
            assert(data@ =~= b@.subrange(HEADER_SIZE as int, i as int));
        }
        let m = Message {
            header: Header {
                target_mode: mode,
                target: u16_from(b[1], b[2]),
                source: u16_from(b[3], b[4]),
                command: Command::from_code(b[5]),
                data_size: b[6],
            },
            data,
        };
        Ok(m)
    }
}

impl PartialEq for Message {
    fn eq(&self, o: &Message) -> (r: bool) {
        if self.header != o.header || self.data.len() != o.data.len() {
            return false;
        }
        let mut i: usize = 0;
        while i < self.data.len()
            invariant
                self.data@.len() == o.data@.len(),
                i <= self.data@.len(),
                self.data@.subrange(0, i as int) == o.data@.subrange(0, i as int),
            decreases self.data@.len() - i,
        {
            if self.data[i] != o.data[i] {
                assert(self.data@.subrange(0, i + 1)[i as int] != o.data@.subrange(0, i + 1)[i as int]);
                return false;
            }
            assert(self.data@.subrange(0, i + 1) =~= self.data@.subrange(0, i as int).push(self.data@[i as int]));
            assert(o.data@.subrange(0, i + 1) =~= o.data@.subrange(0, i as int).push(o.data@[i as int]));
            i = i + 1;
        }
        assert(self.data@ =~= self.data@.subrange(0, i as int));
        assert(o.data@ =~= o.data@.subrange(0, i as int));
        true
    }
}

impl vstd::std_specs::cmp::PartialEqSpecImpl for Message {
    open spec fn obeys_eq_spec() -> bool {
        true
    }

    open spec fn eq_spec(&self, o: &Message) -> bool {
        self@ == o@
    }
}

/// Decoding the frame of a valid message gives the message back, source
/// included.
pub proof fn lemma_round_trip(m: (Header, Seq<u8>))
    requires
        valid(m),
    ensures
        decode(encode(m)) == Some(m),
{
    let b = encode(m);
    let h = m.0;
    lemma_u16_round_trip(h.target);
    lemma_u16_round_trip(h.source);
    assert(b[6] == h.data_size);
    assert(b.subrange(HEADER_SIZE as int, b.len() as int) =~= m.1);
    assert(mode_of_code(mode_code(h.target_mode)) == Some(h.target_mode));
    assert(command_of_code(command_code(h.command)) == h.command);
}

} // verus!
