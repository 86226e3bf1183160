//! Robus: a lightweight field bus for modular robots.
//!
//! Every node runs the same stack: a wire message format, an incremental
//! frame assembler fed one byte at a time, a registry of local modules with
//! the dispatch rules that pick which of them a message targets, and the
//! half-duplex arbitration that keeps local sends and inbound frames apart.
//! The hardware around it (serial line, direction pins, idle timer) is driven
//! by the caller from the actions the core returns.
pub mod arbiter;
pub mod assembler;
pub mod module;
pub mod msg;
pub mod msg_channel;
pub mod physical;
pub mod robus_core;

pub use arbiter::Direction;
pub use assembler::{AssemblerState, BusEvent, FrameAssembler};
pub use module::{Module, ModuleType};
pub use msg::{Command, FramingError, Header, Message, TargetMode};
pub use msg_channel::{message_queue, Mailbox, Rx, Tx};
pub use robus_core::{Core, Delivery};
