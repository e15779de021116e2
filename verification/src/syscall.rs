//! The requests that a program makes of the system: each is a number and
//! one argument, which the caller hands to the system call trap.

use vstd::prelude::*;

verus! {

/// Number of the request to wait.
pub const DELAY: u8 = 1;

/// Number of the request to set the lights.
pub const SET_LEDS: u8 = 2;

/// Number of the request to run the program at an address.
pub const EXEC: u8 = 3;

/// Number of the request to end the program.
pub const EXIT: u8 = 4;

/// Number of the request to write a byte to the terminal.
pub const PUT_BYTE: u8 = 5;

/// A request to the system.
#[derive(Clone, Copy, Debug, PartialEq, Eq, Structural)]
pub struct SystemCall {
    /// What is asked for.
    pub number: u8,
    /// The argument of the request.
    pub argument: u32,
}

/// The request to wait for `time` milliseconds.
pub fn delay(time: u32) -> (call: SystemCall)
    ensures
        call == (SystemCall { number: DELAY, argument: time }),
{
    SystemCall { number: DELAY, argument: time }
}

/// The request to set the lights to `color_bits`.
pub fn set_leds(color_bits: u32) -> (call: SystemCall)
    ensures
        call == (SystemCall { number: SET_LEDS, argument: color_bits }),
{
    SystemCall { number: SET_LEDS, argument: color_bits }
}

/// The request to run the program at `address`.
pub fn exec(address: u32) -> (call: SystemCall)
    ensures
        call == (SystemCall { number: EXEC, argument: address }),
{
    SystemCall { number: EXEC, argument: address }
}

/// The request to end the program with `code`. The system does not come
/// back from it.
pub fn exit(code: u32) -> (call: SystemCall)
    ensures
        call == (SystemCall { number: EXIT, argument: code }),
{
    SystemCall { number: EXIT, argument: code }
}

/// The request to write `byte` to the terminal.
pub fn put_byte(byte: u8) -> (call: SystemCall)
    ensures
        call == (SystemCall { number: PUT_BYTE, argument: byte as u32 }),
{
    SystemCall { number: PUT_BYTE, argument: byte as u32 }
}

} // verus!
