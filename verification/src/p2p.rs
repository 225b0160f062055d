//! What the two parties of a channel, and a party and the relay, say to each
//! other, and what each makes of what it hears.

pub mod protocol;
pub mod protocol_relay;
