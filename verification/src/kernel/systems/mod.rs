//! Kernel systems of the Oregon Trail Deluxe rules.
pub mod affliction;
pub mod dalles;
pub mod disease;
pub mod economy;
pub mod fatality;
pub mod health;
pub mod navigation;
pub mod party;
pub mod supplies;
pub mod vehicle;
