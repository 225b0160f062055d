//! The protocol between the two parties of a channel.

pub mod methods;
pub mod state;
pub mod types;
