//! Network channel ids.

use vstd::prelude::*;

verus! {

/// The channel id for reliable, ordered messages (handshakes, world state).
pub fn reliable_channel() -> (r: u8)
    ensures
        r == 0,
{
    0
}

/// The channel id for sequenced physics input messages.
pub fn physics_input_channel() -> (r: u8)
    ensures
        r == 1,
{
    1
}

/// The channel id for unreliable broadcast messages.
pub fn unreliable_channel() -> (r: u8)
    ensures
        r == 2,
{
    2
}

} // verus!
