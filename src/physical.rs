//! Timing values of the serial line, derived from its baud rate.
use vstd::prelude::*;

verus! {

/// Peripheral clock of the serial line and timer, in Hz.
pub const FREQUENCY: u32 = 48000000;

/// Tick rate of the idle timer's reload computation, in Hz.
pub const TIMER_FREQUENCY: u32 = 10000000;

/// The serial divider for `baudrate` with 8-times oversampling.
pub open spec fn divider(baudrate: u32) -> int {
    FREQUENCY as int / (baudrate as int / 2)
}

/// The fraction (low four bits) and mantissa (the rest) of the baud-rate
/// register for `baudrate`, which must be high enough for the mantissa to
/// fit its 16-bit field.
pub fn baudrate_register(baudrate: u32) -> (r: (u8, u16))
    requires
        baudrate >= 2,
        divider(baudrate) / 16 <= u16::MAX,
    ensures
        r.0 as int == divider(baudrate) % 16,
        r.1 as int == divider(baudrate) / 16,
{
    let div: u32 = FREQUENCY / (baudrate / 2);
    ((div % 16) as u8, (div / 16) as u16)
}

/// Ticks of the idle timer in one byte's duration at `baudrate`.
pub open spec fn byte_ticks(baudrate: u32) -> int {
    (TIMER_FREQUENCY as int / baudrate as int) * 2
}

/// Reload value of the idle timer: the duration of one byte at `baudrate`,
/// which must be high enough for that duration to fit the timer's 16-bit
/// register.
pub fn timeout_reload(baudrate: u32) -> (r: u16)
    requires
        baudrate > 0,
        byte_ticks(baudrate) <= u16::MAX,
    ensures
        r as int == byte_ticks(baudrate),
{
    let ticks: u32 = (TIMER_FREQUENCY / baudrate) * 2;
    ticks as u16
}

} // verus!
