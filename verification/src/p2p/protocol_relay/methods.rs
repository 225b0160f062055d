//! What a party does on each message of the relay.

pub mod reply;
pub mod send;
