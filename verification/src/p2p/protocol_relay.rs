//! The protocol between a party and the relay that brings parties together.

pub mod methods;
pub mod types;
