//! The channel core of kabletop: the round codec, the chain of signed rounds,
//! the channel cache, the peer protocol, dispute reconciliation and replay.

pub mod bytes;
pub mod cache;
pub mod chain;
pub mod ckb;
pub mod challenge;
pub mod crypto;
pub mod error;
pub mod helper;
pub mod hexstr;
pub mod p2p;
pub mod replay;
pub mod round;
