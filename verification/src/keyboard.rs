use vstd::prelude::*;

use crate::cpu::CPUState;
use crate::cpu::MachineView;

verus! {

// Original keyboard layout:
// 1  2  3  C
// 4  5  6  D
// 7  8  9  E
// A  0  B  F
pub type KeyID = u8;

pub const KEY_ID_COUNT: u8 = 16;

/// Whether key `key` is down in a sixteen-bit key-state mask.
pub open spec fn key_down(mask: u16, key: u8) -> bool {
    (mask & (1u16 << key)) != 0
}

/// A key-state mask with key `key` forced to `pressed` and the other keys
/// kept.
pub open spec fn mask_with_key(mask: u16, key: u8, pressed: bool) -> u16 {
    (mask & !(1u16 << key)) | (if pressed {
        1u16 << key
    } else {
        0u16
    })
}

/// The lowest key at or above `k` that is down in `mask`, or 16 when none
/// is.
pub open spec fn lowest_key_from(mask: u16, k: int) -> int
    decreases 16 - k,
{
    if k < 0 || k >= 16 {
        16
    } else if key_down(mask, k as u8) {
        k
    } else {
        lowest_key_from(mask, k + 1)
    }
}

/// The lowest-numbered key that is down in `mask`, or 16 when none is.
pub open spec fn lowest_key(mask: u16) -> int {
    lowest_key_from(mask, 0)
}

/// A mask whose sixteen key bits are all clear is zero.
proof fn lemma_no_key_down_means_zero(mask: u16)
    by (bit_vector)
    ensures
        (mask & (1u16 << 0u16) == 0 && mask & (1u16 << 1u16) == 0 && mask & (1u16 << 2u16) == 0
            && mask & (1u16 << 3u16) == 0 && mask & (1u16 << 4u16) == 0 && mask & (1u16 << 5u16)
            == 0 && mask & (1u16 << 6u16) == 0 && mask & (1u16 << 7u16) == 0 && mask & (1u16
            << 8u16) == 0 && mask & (1u16 << 9u16) == 0 && mask & (1u16 << 10u16) == 0 && mask & (
        1u16 << 11u16) == 0 && mask & (1u16 << 12u16) == 0 && mask & (1u16 << 13u16) == 0 && mask
            & (1u16 << 14u16) == 0 && mask & (1u16 << 15u16) == 0) ==> mask == 0,
{
}

/// Forcing one key of a mask leaves the other keys as they were.
proof fn lemma_mask_with_key(mask: u16, key: u8, pressed: bool, probe: u8)
    by (bit_vector)
    requires
        key < 16,
        probe < 16,
    ensures
        key_down(mask_with_key(mask, key, pressed), probe) == if probe == key {
            pressed
        } else {
            key_down(mask, probe)
        },
{
}

/// Scanning from key `k` upwards stops at the first key that is down:
/// the found key is down, no key between `k` and it is, and a result of 16
/// means no key at or above `k` is down.
proof fn lemma_lowest_key_from_props(mask: u16, k: int)
    requires
        0 <= k <= 16,
    ensures
        k <= lowest_key_from(mask, k) <= 16,
        lowest_key_from(mask, k) < 16 ==> key_down(mask, lowest_key_from(mask, k) as u8),
        forall|j: u8| k <= j as int && (j as int) < lowest_key_from(mask, k) ==> !(
        #[trigger] key_down(mask, j)),
    decreases 16 - k,
{
    if k < 16 && !key_down(mask, k as u8) {
        lemma_lowest_key_from_props(mask, k + 1);
        assert forall|j: u8| k <= j as int && (j as int) < lowest_key_from(mask, k) implies !(
        key_down(mask, j)) by {
            if j as int == k {
                assert(j == k as u8);
            }
        }
    }
}

/// A non-zero mask has a lowest key that is down, below which no key is.
pub proof fn lemma_lowest_key_props(mask: u16)
    requires
        mask != 0,
    ensures
        0 <= lowest_key(mask) < 16,
        key_down(mask, lowest_key(mask) as u8),
        forall|j: u8| (j as int) < lowest_key(mask) ==> !key_down(mask, j),
{
    lemma_lowest_key_from_props(mask, 0);
    if lowest_key(mask) == 16 {
        assert(!key_down(mask, 0) && !key_down(mask, 1) && !key_down(mask, 2) && !key_down(mask, 3)
            && !key_down(mask, 4) && !key_down(mask, 5) && !key_down(mask, 6) && !key_down(mask, 7)
            && !key_down(mask, 8) && !key_down(mask, 9) && !key_down(mask, 10) && !key_down(
            mask,
            11,
        ) && !key_down(mask, 12) && !key_down(mask, 13) && !key_down(mask, 14) && !key_down(
            mask,
            15,
        ));
        lemma_no_key_down_means_zero(mask);
        assert(false);
    }
}

pub fn is_key_pressed(state: &CPUState, key: KeyID) -> (pressed: bool)
    requires
        key < KEY_ID_COUNT,
    ensures
        pressed == key_down(state@.keys, key),
{
    (state.key_state & (1u16 << key)) != 0
}

// If multiple keys are pressed at the same time, only register one:
// the lowest-numbered key that is down.
pub fn get_key_pressed(key_state: u16) -> (key: KeyID)
    requires
        key_state != 0,
    ensures
        key as int == lowest_key(key_state),
        key < KEY_ID_COUNT,
        key_down(key_state, key),
        forall|j: u8| j < key ==> !key_down(key_state, j),
{
    let mut probe: u8 = 0;
    while probe < 16
        invariant
            probe <= 16,
            key_state != 0,
            forall|j: u8| j < probe ==> !key_down(key_state, j),
            lowest_key(key_state) == lowest_key_from(key_state, probe as int),
        decreases 16 - probe,
    {
        if (key_state & (1u16 << probe)) != 0 {
            return probe;
        }
        probe = probe + 1;
    }

    proof {
        assert(!key_down(key_state, 0) && !key_down(key_state, 1) && !key_down(key_state, 2)
            && !key_down(key_state, 3) && !key_down(key_state, 4) && !key_down(key_state, 5)
            && !key_down(key_state, 6) && !key_down(key_state, 7) && !key_down(key_state, 8)
            && !key_down(key_state, 9) && !key_down(key_state, 10) && !key_down(key_state, 11)
            && !key_down(key_state, 12) && !key_down(key_state, 13) && !key_down(key_state, 14)
            && !key_down(key_state, 15));
        lemma_no_key_down_means_zero(key_state);
        assert(false);
    }
    0
}

pub fn set_key_pressed(state: &mut CPUState, key: KeyID, pressed_state: bool)
    requires
        key < KEY_ID_COUNT,
    ensures
        final(state)@ == (MachineView { keys: final(state)@.keys, ..old(state)@ }),
        final(state)@.keys == mask_with_key(old(state)@.keys, key, pressed_state),
        forall|j: u8|
            j < KEY_ID_COUNT ==> key_down(final(state)@.keys, j) == (if j == key {
                pressed_state
            } else {
                key_down(old(state)@.keys, j)
            }),
{
    let key_mask: u16 = 1u16 << key;
    state.key_state = (state.key_state & !key_mask) | (if pressed_state {
        key_mask
    } else {
        0
    });

    proof {
        assert forall|j: u8| j < KEY_ID_COUNT implies key_down(state@.keys, j) == (if j == key {
            pressed_state
        } else {
            key_down(old(state)@.keys, j)
        }) by {
            lemma_mask_with_key(old(state)@.keys, key, pressed_state, j);
        }
    }
}

} // verus!
