//! Party queries.
pub use crate::otdeluxe_state::alive_member_indices;
