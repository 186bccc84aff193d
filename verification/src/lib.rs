//! Core rules of the Dystrail survival game: encounter selection, crew care,
//! trail activities, hunting, crossings and the Oregon Trail Deluxe parity
//! helpers, each stated and proved with Verus.

pub mod exec_orders;
pub mod text;
pub mod strmap;
pub mod data;
pub mod vehicle;
pub mod weather;
pub mod constants;
pub mod state;
pub mod encounters;
pub mod rng;
pub mod party;
pub mod otdeluxe_state;
pub mod journal;
pub mod activities;
pub mod crew_care;
pub mod camp;
pub mod journey;
pub mod evidence;
pub mod coverage_anchor;
pub mod hunt;
pub mod mechanics;
pub mod kernel;
pub mod disease;
pub mod endgame;
pub mod day_accounting;
pub mod boss;
pub mod crossings;
