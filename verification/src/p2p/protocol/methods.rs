//! What a party does on each message: `send` for the party that asks, upon
//! the answer; `reply` for the party that is asked.

pub mod reply;
pub mod send;
