//! The ways in which an operation on a channel fails.

use vstd::prelude::*;

verus! {

/// Why an operation on a channel did not take place. Whenever one of these
/// is returned the channel is as it was before the call.
#[derive(Clone, Copy, Debug, PartialEq, Eq, Structural)]
pub enum ChannelError {
    /// The two sides disagree on the round counter or on the operations of
    /// the round.
    ProtocolMismatch,
    /// The chain of signed rounds does not verify.
    SignatureInvalid,
    /// A call did not reach the other side, or the other side refused it.
    TransportError,
    /// A transaction was submitted, but was not seen confirmed within the
    /// bound.
    ChainTimeout,
    /// The local party has already published the challenge that was found.
    DuplicateChallenge,
    /// Bytes that encode no round.
    MalformedRound,
    /// A signature that names no signer at all.
    SignatureDecodeError,
    /// The channel is in no state for the operation.
    InvalidState,
    /// The private key could not sign.
    SigningFailed,
}

} // verus!
