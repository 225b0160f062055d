//! The hash and the signatures that the channel rests on.
//!
//! Nothing here is computed by this library: the hash is `ckb_hash`'s and the
//! signatures are `ckb_crypto`'s. Each result is a function of the arguments
//! alone, and is known to the rest of the library by a name only.

use vstd::prelude::*;

verus! {

/// The CKB default hash (blake2b with 32 bytes of output) of a byte string.
pub uninterp spec fn spec_blake2b_256(data: Seq<u8>) -> Seq<u8>;

/// The serialized public key that a signature names as the signer of a
/// message digest, or `None` where the signature names no key.
pub uninterp spec fn spec_recover_pubkey(message: Seq<u8>, signature: Seq<u8>) -> Option<Seq<u8>>;

/// The recoverable signature of a message digest under a private key, or
/// `None` where the key cannot sign.
pub uninterp spec fn spec_sign_recoverable(privkey: Seq<u8>, message: Seq<u8>) -> Option<Seq<u8>>;

/// The serialized public key of a private key, or `None` where the bytes are
/// no private key.
pub uninterp spec fn spec_pubkey(privkey: Seq<u8>) -> Option<Seq<u8>>;

/// Calls `ckb_hash::blake2b_256`. The digest depends on the input alone.
#[verifier::external_body]
pub(crate) fn blake2b_256(data: &[u8]) -> (digest: [u8; 32])
    ensures
        digest@ == spec_blake2b_256(data@),
{
    ckb_hash::blake2b_256(data)
}

/// Calls `ckb_crypto::secp::Signature::recover` on the signature made of the
/// 65 bytes, and hands the recovered key out in its serialized form. The
/// outcome depends on the digest and the signature alone.
#[verifier::external_body]
pub(crate) fn recover_pubkey(message: &[u8; 32], signature: &[u8; 65]) -> (pubkey: Option<Vec<u8>>)
    ensures
        pubkey.is_some() == spec_recover_pubkey(message@, signature@).is_some(),
        pubkey.is_some() ==> pubkey.unwrap()@ == spec_recover_pubkey(message@, signature@).unwrap(),
{
    let signature = ckb_crypto::secp::Signature::from_slice(signature).ok()?;
    let digest = ckb_crypto::secp::Message::from(*message);
    signature.recover(&digest).ok().map(|pubkey| pubkey.serialize())
}

/// Calls `ckb_crypto::secp::Privkey::sign_recoverable`, which takes its nonce
/// from the key and the digest, so that the signature depends on these alone.
/// A signature is serialized in 65 bytes.
#[verifier::external_body]
pub(crate) fn sign_recoverable(privkey: &[u8; 32], message: &[u8; 32]) -> (signature: Option<Vec<u8>>)
    ensures
        signature.is_some() == spec_sign_recoverable(privkey@, message@).is_some(),
        signature.is_some() ==> signature.unwrap()@ == spec_sign_recoverable(privkey@, message@).unwrap(),
        signature.is_some() ==> signature.unwrap()@.len() == 65,
{
    let key = ckb_crypto::secp::Privkey::from_slice(privkey);
    let digest = ckb_crypto::secp::Message::from(*message);
    key.sign_recoverable(&digest).ok().map(|signature| signature.serialize())
}

/// Calls `ckb_crypto::secp::Privkey::pubkey` and hands the key out in its
/// serialized form. The outcome depends on the private key alone.
#[verifier::external_body]
pub(crate) fn pubkey_of(privkey: &[u8; 32]) -> (pubkey: Option<Vec<u8>>)
    ensures
        pubkey.is_some() == spec_pubkey(privkey@).is_some(),
        pubkey.is_some() ==> pubkey.unwrap()@ == spec_pubkey(privkey@).unwrap(),
{
    let key = ckb_crypto::secp::Privkey::from_slice(privkey);
    key.pubkey().ok().map(|pubkey| pubkey.serialize())
}

/// The fingerprint of a serialized public key: the first 20 bytes of its hash.
pub open spec fn spec_pubkey_hash(pubkey: Seq<u8>) -> Seq<u8> {
    spec_blake2b_256(pubkey).subrange(0, 20)
}

/// The fingerprint of a serialized public key.
pub fn pubkey_hash(pubkey: &[u8]) -> (hash: [u8; 20])
    ensures
        hash@ == spec_pubkey_hash(pubkey@),
{
    let digest = blake2b_256(pubkey);
    let mut hash = [0u8; 20];
    let mut index: usize = 0;
    while index < 20
        invariant
            index <= 20,
            digest@.len() == 32,
            hash@.len() == 20,
            forall|k: int| 0 <= k < index ==> hash@[k] == digest@[k],
        decreases 20 - index,
    {
        hash[index] = digest[index];
        index += 1;
    }
    hash
}

/// The message digest that stands for a byte string when it is signed.
pub fn message_digest(payload: &[u8]) -> (digest: [u8; 32])
    ensures
        digest@ == spec_blake2b_256(payload@),
{
    blake2b_256(payload)
}

/// The fingerprint of the key that signed `message`, or `None` where the
/// signature names no key.
pub open spec fn spec_signer_hash(message: Seq<u8>, signature: Seq<u8>) -> Option<Seq<u8>> {
    match spec_recover_pubkey(message, signature) {
        Some(pubkey) => Some(spec_pubkey_hash(pubkey)),
        None => None,
    }
}

/// The fingerprint of the key that signed `message`.
pub fn signer_hash(message: &[u8; 32], signature: &[u8; 65]) -> (hash: Option<[u8; 20]>)
    ensures
        hash.is_some() == spec_signer_hash(message@, signature@).is_some(),
        hash.is_some() ==> hash.unwrap()@ == spec_signer_hash(message@, signature@).unwrap(),
{
    match recover_pubkey(message, signature) {
        Some(pubkey) => Some(pubkey_hash(pubkey.as_slice())),
        None => None,
    }
}

/// The fingerprint of the public key of a private key.
pub open spec fn spec_privkey_hash(privkey: Seq<u8>) -> Option<Seq<u8>> {
    match spec_pubkey(privkey) {
        Some(pubkey) => Some(spec_pubkey_hash(pubkey)),
        None => None,
    }
}

/// The fingerprint of the public key of a private key, or `None` where the
/// bytes are no private key.
pub fn privkey_to_pkhash(privkey: &[u8; 32]) -> (hash: Option<[u8; 20]>)
    ensures
        hash.is_some() == spec_privkey_hash(privkey@).is_some(),
        hash.is_some() ==> hash.unwrap()@ == spec_privkey_hash(privkey@).unwrap(),
{
    match pubkey_of(privkey) {
        Some(pubkey) => Some(pubkey_hash(pubkey.as_slice())),
        None => None,
    }
}

} // verus!
