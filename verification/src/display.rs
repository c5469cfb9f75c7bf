use vstd::prelude::*;

use crate::cpu::CPUState;
use crate::cpu::MachineView;
use crate::cpu::SCREEN_HEIGHT;
use crate::cpu::SCREEN_WIDTH;

verus! {

/// Bit `bit` of a packed display byte; bit 0 is the leftmost pixel of the
/// eight the byte holds.
pub open spec fn byte_bit(byte: u8, bit: u8) -> bool {
    (byte >> bit) & 1 != 0
}

/// A display byte with pixel `bit` forced to `value` and the other seven
/// pixels kept.
pub open spec fn byte_with_bit(byte: u8, bit: u8, value: bool) -> u8 {
    byte & !(1u8 << bit) | (if value {
        1u8
    } else {
        0u8
    }) << bit
}

/// Pixel `(x, y)` of a packed display surface: bit `x % 8` of byte `x / 8`
/// of row `y`.
pub open spec fn spec_pixel(screen: Seq<Seq<u8>>, x: int, y: int) -> bool {
    byte_bit(screen[y][x / 8], (x % 8) as u8)
}

/// Forcing one pixel of a byte leaves the byte's other pixels as they were.
pub proof fn lemma_byte_with_bit(byte: u8, bit: u8, value: bool, probe: u8)
    by (bit_vector)
    requires
        bit < 8,
        probe < 8,
    ensures
        byte_bit(byte_with_bit(byte, bit, value), probe) == if probe == bit {
            value
        } else {
            byte_bit(byte, probe)
        },
{
}

pub fn read_screen_pixel(state: &CPUState, x: usize, y: usize) -> (value: bool)
    requires
        state@.wf(),
        x < SCREEN_WIDTH,
        y < SCREEN_HEIGHT,
    ensures
        value == spec_pixel(state@.screen, x as int, y as int),
{
    let screen_offset_byte = x / 8;
    let screen_offset_bit = x % 8;

    proof {
        assert(state@.screen[y as int] == state.screen@[y as int]@);
    }

    ((state.screen[y][screen_offset_byte] >> (screen_offset_bit as u8)) & 0x1) != 0
}

pub fn write_screen_pixel(state: &mut CPUState, x: usize, y: usize, value: bool)
    requires
        old(state)@.wf(),
        x < SCREEN_WIDTH,
        y < SCREEN_HEIGHT,
    ensures
        final(state)@.wf(),
        final(state)@ == (MachineView { screen: final(state)@.screen, ..old(state)@ }),
        final(state)@.screen == old(state)@.screen.update(
            y as int,
            final(state)@.screen[y as int],
        ),
        final(state)@.screen[y as int] == old(state)@.screen[y as int].update(
            x as int / 8,
            byte_with_bit(old(state)@.screen[y as int][x as int / 8], (x % 8) as u8, value),
        ),
        forall|px: int, py: int|
            0 <= px < SCREEN_WIDTH && 0 <= py < SCREEN_HEIGHT ==> spec_pixel(
                final(state)@.screen,
                px,
                py,
            ) == (if px == x && py == y {
                value
            } else {
                spec_pixel(old(state)@.screen, px, py)
            }),
{
    let screen_offset_byte = x / 8;
    let screen_offset_bit = x % 8;

    proof {
        assert(old(state)@.screen[y as int] == state.screen@[y as int]@);
    }

    let mask = 1u8 << (screen_offset_bit as u8);
    let screen_byte_value = state.screen[y][screen_offset_byte];

    state.screen[y][screen_offset_byte] = screen_byte_value & !mask | (if value {
        1u8
    } else {
        0u8
    }) << (screen_offset_bit as u8);

    proof {
        let pre = old(state)@.screen;
        let post = state@.screen;
        assert(post =~= pre.update(y as int, post[y as int]));
        assert(post[y as int] =~= pre[y as int].update(
            x as int / 8,
            byte_with_bit(pre[y as int][x as int / 8], (x % 8) as u8, value),
        ));
        assert forall|px: int, py: int|
            0 <= px < SCREEN_WIDTH && 0 <= py < SCREEN_HEIGHT implies spec_pixel(post, px, py) == (
        if px == x && py == y {
            value
        } else {
            spec_pixel(pre, px, py)
        }) by {
            if py == y && px / 8 == x as int / 8 {
                lemma_byte_with_bit(
                    pre[y as int][x as int / 8],
                    (x % 8) as u8,
                    value,
                    (px % 8) as u8,
                );
                assert(px == x <==> (px % 8) as u8 == (x % 8) as u8);
            }
        }
    }
}

} // verus!
