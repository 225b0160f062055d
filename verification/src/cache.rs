//! What a party remembers of its channel.

pub mod channel;
pub mod snapshot;
