//! Mechanical rulesets.
pub mod otdeluxe90s;

pub use otdeluxe90s::{OtDeluxeOccupation, OtDeluxePace, OtDeluxeRations};
