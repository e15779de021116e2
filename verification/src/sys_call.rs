//! The system calls that the shell makes on behalf of its commands.

use vstd::prelude::*;
use crate::syscall::{SystemCall, SET_LEDS};

verus! {

/// Whether `colors` names a light by its letter or by its digit.
pub open spec fn names(colors: Seq<u8>, letter: u8, digit: u8) -> bool {
    colors.contains(letter) || colors.contains(digit)
}

/// The argument that sets the lights named in `colors`: for each of red,
/// green and blue one bit that switches the light on if it is named (bits 0
/// to 2), and one that switches it off if it is not (bits 3 to 5).
pub open spec fn led_bits(colors: Seq<u8>) -> u32 {
    let red: u32 = if names(colors, 0x72, 0x31) {
        0b000001
    } else {
        0b001000
    };
    let green: u32 = if names(colors, 0x67, 0x32) {
        0b000010
    } else {
        0b010000
    };
    let blue: u32 = if names(colors, 0x62, 0x33) {
        0b000100
    } else {
        0b100000
    };
    (red + green + blue) as u32
}

/// Clearing a light's off bit and setting its on bit leaves the bits of the
/// other lights as they are.
proof fn lemma_switch_on(bits: u32, keep: u32, on: u32)
    requires
        (keep == 0b110111 && on == 0b000001) || (keep == 0b101111 && on == 0b000010) || (keep
            == 0b011111 && on == 0b000100),
    ensures
        ((bits & keep) | on) & (on | (on << 3)) == on,
        forall|other: u32|
            other != on && (other == 1 || other == 2 || other == 4) ==> ((bits & keep) | on) & (
            other | (other << 3)) == bits & (other | (other << 3)),
        ((bits & keep) | on) & 0xffff_ffc0 == 0,
{
    assert(((bits & 0b110111) | 1) & 9 == 1 && ((bits & 0b110111) | 1) & 18 == bits & 18 && ((bits
        & 0b110111) | 1) & 36 == bits & 36 && ((bits & 0b110111) | 1) & 0xffff_ffc0 == 0)
        by (bit_vector);
    assert(((bits & 0b101111) | 2) & 18 == 2 && ((bits & 0b101111) | 2) & 9 == bits & 9 && ((bits
        & 0b101111) | 2) & 36 == bits & 36 && ((bits & 0b101111) | 2) & 0xffff_ffc0 == 0)
        by (bit_vector);
    assert(((bits & 0b011111) | 4) & 36 == 4 && ((bits & 0b011111) | 4) & 9 == bits & 9 && ((bits
        & 0b011111) | 4) & 18 == bits & 18 && ((bits & 0b011111) | 4) & 0xffff_ffc0 == 0)
        by (bit_vector);
    assert(1u32 | (1u32 << 3) == 9 && 2u32 | (2u32 << 3) == 18 && 4u32 | (4u32 << 3) == 36)
        by (bit_vector);
}

/// The request to set the lights that `colors` names: `r` or `1` for red,
/// `g` or `2` for green, `b` or `3` for blue. Other characters name nothing.
pub fn set_leds(colors: &[u8]) -> (call: SystemCall)
    ensures
        call == (SystemCall { number: SET_LEDS, argument: led_bits(colors@) }),
{
    let mut color_bits: u32 = 0b111000;
    let mut index: usize = 0;
    assert(0b111000u32 & 9 == 8 && 0b111000u32 & 18 == 16 && 0b111000u32 & 36 == 32 && 0b111000u32
        & 0xffff_ffc0 == 0) by (bit_vector);
    while index < colors.len()
        invariant
            index <= colors@.len(),
            color_bits & 9 == if names(colors@.take(index as int), 0x72, 0x31) {
                1u32
            } else {
                8u32
            },
            color_bits & 18 == if names(colors@.take(index as int), 0x67, 0x32) {
                2u32
            } else {
                16u32
            },
            color_bits & 36 == if names(colors@.take(index as int), 0x62, 0x33) {
                4u32
            } else {
                32u32
            },
            color_bits & 0xffff_ffc0 == 0,
        decreases colors@.len() - index,
    {
        let color = colors[index];
        proof {
            let before = colors@.take(index as int);
            let after = colors@.take(index + 1);
            assert forall|byte: u8| after.contains(byte) <==> before.contains(byte) || byte
                == color by {
                if byte == color {
                    assert(after[index as int] == byte);
                }
            }
            lemma_switch_on(color_bits, 0b110111, 0b000001);
            lemma_switch_on(color_bits, 0b101111, 0b000010);
            lemma_switch_on(color_bits, 0b011111, 0b000100);
            assert(1u32 | (1u32 << 3) == 9 && 2u32 | (2u32 << 3) == 18 && 4u32 | (4u32 << 3) == 36)
                by (bit_vector);
        }
        if color == 0x72 || color == 0x31 {
            color_bits = color_bits & 0b110111;
            color_bits = color_bits | 0b000001;
        } else if color == 0x67 || color == 0x32 {
            color_bits = color_bits & 0b101111;
            color_bits = color_bits | 0b000010;
        } else if color == 0x62 || color == 0x33 {
            color_bits = color_bits & 0b011111;
            color_bits = color_bits | 0b000100;
        }
        index = index + 1;
    }
    assert(colors@.take(colors@.len() as int) =~= colors@);
    assert(color_bits & 0xffff_ffc0 == 0 ==> color_bits == (color_bits & 9) + (color_bits & 18) + (
    color_bits & 36)) by (bit_vector);
    crate::syscall::set_leds(color_bits)
}

/// The request to wait for `time` milliseconds.
pub fn delay(time: u32) -> (call: SystemCall)
    ensures
        call == (SystemCall { number: crate::syscall::DELAY, argument: time }),
{
    crate::syscall::delay(time)
}

/// The request to run the program at `address`.
pub fn exec(address: u32) -> (call: SystemCall)
    ensures
        call == (SystemCall { number: crate::syscall::EXEC, argument: address }),
{
    crate::syscall::exec(address)
}

/// The request to end the system with `code`.
pub fn exit(code: u32) -> (call: SystemCall)
    ensures
        call == (SystemCall { number: crate::syscall::EXIT, argument: code }),
{
    crate::syscall::exit(code)
}

} // verus!
