//! The tags that tell the game's timers apart.

use vstd::prelude::*;

verus! {

/// The next frame is due.
pub const RENDERING_TIMEOUT: u32 = 0;

/// The small preset was asked for.
pub const START_8X15_TIMEOUT: u32 = 1;

/// The large preset was asked for.
pub const START_16X30_TIMEOUT: u32 = 2;

/// The large preset with wormholes was asked for, or the custom level.
pub const START_16X30_WITH_WORMHOLE_TIMEOUT: u32 = 3;

} // verus!
