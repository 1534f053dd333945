//! The receiving end of a bridge lane: which messages may be delivered next, who delivered the
//! messages that are still unrewarded, and what a confirmation from the sending chain settles.

pub mod codec;
pub mod inbound_lane;
pub mod laws;
pub mod memory_storage;
pub mod messages;
pub mod model;
