//! Verified core of the Patrician III tool set: navigation data, CPR archives,
//! AIM image decoding, the trading agent's hub routes and the game modifications'
//! decision logic.

pub mod bytes;
pub mod connected_nodes;
pub mod lines;
pub mod cpr;
pub mod aim;
pub mod routes;
pub mod server;
pub mod town_hall;
pub mod mods;
pub mod cli;
pub mod dotnet;
pub mod locks;
pub mod agent;
pub mod loader;
pub mod offices;
