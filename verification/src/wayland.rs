//! Decoding of toplevel state arrays from the two Wayland toplevel
//! protocols, and the active-window policy: the currently active
//! toplevel is the one most recently signalled activated; losing
//! activation, or closing the active toplevel, clears it.

use vstd::prelude::*;
use crate::x11::le32;

verus! {

/// The `activated` state value of the wlr foreign-toplevel protocol.
pub const WLR_STATE_ACTIVATED: u8 = 2;

/// The `activated` state value of the cosmic toplevel-info protocol.
pub const COSMIC_STATE_ACTIVATED: u32 = 2;

/// Whether a wlr toplevel state array carries the activated flag,
/// read as the byte-wise membership test the daemon uses.
pub fn wlr_state_is_activated(state: &Vec<u8>) -> (b: bool)
    ensures
        b == state@.contains(WLR_STATE_ACTIVATED),
{
    let mut i: usize = 0;
    while i < state.len()
        invariant
            i <= state@.len(),
            forall|k: int| 0 <= k < i ==> state@[k] != WLR_STATE_ACTIVATED,
        decreases state@.len() - i,
    {
        if state[i] == WLR_STATE_ACTIVATED {
            return true;
        }
        i = i + 1;
    }
    proof {
        assert forall|k: int| 0 <= k < state@.len() implies state@[k] != WLR_STATE_ACTIVATED by {}
    }
    false
}

/// Whether a cosmic toplevel state array carries the activated flag:
/// the array packs little-endian 32-bit values, four bytes each, and
/// one of them is the activated value.
pub fn cosmic_state_is_activated(state: &Vec<u8>) -> (b: bool)
    ensures
        b == exists|k: int|
            0 <= k && 4 * k + 4 <= state@.len() && #[trigger] le32(
                state@.subrange(4 * k, 4 * k + 4),
            ) == COSMIC_STATE_ACTIVATED,
{
    if state.len() < 4 {
        return false;
    }
    let mut i: usize = 0;
    while i <= state.len() - 4
        invariant
            4 <= state@.len(),
            i % 4 == 0,
            i <= state@.len(),
            forall|k: int|
                0 <= k && 4 * k < i ==> #[trigger] le32(state@.subrange(4 * k, 4 * k + 4))
                    != COSMIC_STATE_ACTIVATED,
        decreases state@.len() - i,
    {
        let v: u32 = state[i] as u32 + 256 * (state[i + 1] as u32 + 256 * (state[i + 2] as u32
            + 256 * (state[i + 3] as u32)));
        let ghost k = i as int / 4;
        proof {
            assert(4 * k == i as int);
            let chunk = state@.subrange(4 * k, 4 * k + 4);
            assert(chunk[0] == state@[i as int]);
            assert(chunk[1] == state@[i as int + 1]);
            assert(chunk[2] == state@[i as int + 2]);
            assert(chunk[3] == state@[i as int + 3]);
            assert(le32(chunk) == v);
        }
        if v == COSMIC_STATE_ACTIVATED {
            return true;
        }
        i = i + 4;
    }
    proof {
        assert forall|k: int|
            0 <= k && 4 * k + 4 <= state@.len() implies #[trigger] le32(
            state@.subrange(4 * k, 4 * k + 4),
        ) != COSMIC_STATE_ACTIVATED by {
            assert(4 * k < i);
        }
    }
    false
}

/// The active toplevel after a state event on some handle: an
/// activated handle becomes the active one; a handle that lost
/// activation clears the active slot only if it held it.
pub fn next_active_toplevel(current: Option<u64>, handle: u64, activated: bool) -> (r: Option<
    u64,
>)
    ensures
        activated ==> r == Some(handle),
        !activated && current == Some(handle) ==> r is None,
        !activated && current != Some(handle) ==> r == current,
{
    if activated {
        Some(handle)
    } else {
        match current {
            Some(c) => if c == handle {
                None
            } else {
                Some(c)
            },
            None => None,
        }
    }
}

/// The active toplevel after a handle closed: closing the active one
/// clears it; closing any other leaves it.
pub fn active_after_closed(current: Option<u64>, closed: u64) -> (r: Option<u64>)
    ensures
        current == Some(closed) ==> r is None,
        current != Some(closed) ==> r == current,
{
    match current {
        Some(c) => if c == closed {
            None
        } else {
            Some(c)
        },
        None => None,
    }
}

} // verus!
