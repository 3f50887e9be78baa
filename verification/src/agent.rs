//! The trading agent's hooks into the game: three call instructions whose
//! operands the agent redirects to its own handlers while it runs.
use vstd::prelude::*;

use crate::mods::call_displacement;

verus! {

/// The operand of the call that drives the game's class 11 tick.
pub const HOOK1_ADDRESS: u32 = 0x00531036;

/// That operand as the game ships it.
pub const HOOK1_ORIGINAL_VALUE: u32 = 0x000E1786;

/// The operand of the call that notifies a docked ship.
pub const HOOK2_ADDRESS: u32 = 0x00519D73;

/// That operand as the game ships it.
pub const HOOK2_ORIGINAL_VALUE: u32 = 0x0002EF29;

/// The operand of the call that notifies a docked convoy.
pub const HOOK3_ADDRESS: u32 = 0x0050777D;

/// That operand as the game ships it.
pub const HOOK3_ORIGINAL_VALUE: u32 = 0x0004151F;

/// The agent's server runs.
pub const STATUS_RUNNING: u8 = 1;

/// The agent asks its server to shut down.
pub const STATUS_SHUTDOWN: u8 = 2;

/// The agent's server has shut down.
pub const STATUS_SHUTDOWN_FINISHED: u8 = 3;

/// The call operand that makes the call whose operand lies at `operand_address`
/// go to `target`.
pub open spec fn call_operand(target: u32, operand_address: u32) -> u32 {
    ((target - (operand_address + 4)) % 0x1_0000_0000) as u32
}

/// The patches that starting the agent writes, as `(operand address, operand)`:
/// the tick call goes to `tick_hook`, both docking notifications to
/// `docked_hook`.
pub fn hook_patches(tick_hook: u32, docked_hook: u32) -> (patches: [(u32, u32); 3])
    ensures
        patches@[0] == (HOOK1_ADDRESS, call_operand(tick_hook, HOOK1_ADDRESS)),
        patches@[1] == (HOOK2_ADDRESS, call_operand(docked_hook, HOOK2_ADDRESS)),
        patches@[2] == (HOOK3_ADDRESS, call_operand(docked_hook, HOOK3_ADDRESS)),
{
    [
        (HOOK1_ADDRESS, call_displacement(tick_hook, HOOK1_ADDRESS)),
        (HOOK2_ADDRESS, call_displacement(docked_hook, HOOK2_ADDRESS)),
        (HOOK3_ADDRESS, call_displacement(docked_hook, HOOK3_ADDRESS)),
    ]
}

} // verus!
