//! The values that the .NET bindings hand out.
use vstd::prelude::*;

verus! {

/// A ship as the .NET bindings report it.
#[derive(Debug, Clone, Copy)]
pub struct DotnetShip {
    pub merchant_id: u8,
    pub max_health: i32,
    pub current_health: i32,
    pub x: i32,
    pub y: i32,
    pub current_town_id: u8,
}

/// A town as the .NET bindings report it: stock, businesses' consumption and
/// production per ware.
#[derive(Debug, Clone, Copy)]
pub struct DotnetTown {
    pub raw_town_id: u16,
    pub wares: [i32; 0x18],
    pub daily_consumption_businesses: [i32; 0x18],
    pub daily_production: [i32; 0x18],
}

/// The handle that the .NET bindings give out for a connection to the game.
#[derive(Debug)]
pub struct DotnetOpenProcessP3AccessApi;

} // verus!
