//! Networking: channel assignment of the message kinds and the rollback
//! history.

pub mod messages;
pub mod rollback;

pub use messages::{physics_input_channel, reliable_channel, unreliable_channel};
pub use rollback::{RollbackSystem, SavedState, MAX_HISTORY};
