//! The chain of signed rounds.
//!
//! A round is signed by the counterparty of the party that owns it. What is
//! signed is the hash of the channel's identity, the round's position in the
//! history, every earlier round with its signature, and the round itself, so
//! that whoever signs round N has accepted rounds 0 to N-1 as they stand.
//!
//! The payload of the round at position N is made of, in this order: the
//! hash of the channel's lock script (32 bytes), the channel's capacity
//! (eight little-endian bytes), N (eight little-endian bytes), for each of
//! the rounds 0 to N-1 its encoding and its signature (65 bytes), and the
//! encoding of the round.

use vstd::prelude::*;
use crate::bytes::{append_bytes, append_le64, bytes_equal, le64};
use crate::crypto::{message_digest, sign_recoverable, signer_hash, spec_blake2b_256, spec_privkey_hash, spec_sign_recoverable, spec_signer_hash};
use crate::error::ChannelError;
use crate::bytes::{from_le64, lemma_le64_inverse};
use crate::round::{encodable, encode_round, lemma_encode_round_delimited, lemma_encode_round_injective, Round, RoundView};

verus! {

/// A round with the signature of its owner's counterparty.
#[derive(Clone, Debug, PartialEq, Eq)]
pub struct SignedRound {
    pub round: Round,
    pub signature: [u8; 65],
}

/// What a signed round holds, as mathematical values.
pub struct SignedRoundView {
    pub round: RoundView,
    pub signature: Seq<u8>,
}

impl View for SignedRound {
    type V = SignedRoundView;

    open spec fn view(&self) -> SignedRoundView {
        SignedRoundView { round: self.round@, signature: self.signature@ }
    }
}

impl SignedRound {
    /// A copy of the signed round.
    pub fn duplicate(&self) -> (copy: SignedRound)
        ensures
            copy@ == self@,
    {
        SignedRound { round: self.round.duplicate(), signature: self.signature }
    }
}

/// A copy of a history of signed rounds.
pub fn clone_signed_rounds(rounds: &Vec<SignedRound>) -> (copy: Vec<SignedRound>)
    ensures
        signed_rounds_view(copy@) == signed_rounds_view(rounds@),
{
    let mut copy: Vec<SignedRound> = Vec::new();
    let mut index: usize = 0;
    while index < rounds.len()
        invariant
            index <= rounds@.len(),
            copy@.len() == index,
            forall|k: int| 0 <= k < index ==> copy@[k]@ == rounds@[k]@,
        decreases rounds@.len() - index,
    {
        copy.push(rounds[index].duplicate());
        index += 1;
    }
    copy
}

/// The signature that 65 bytes make up; bytes of any other number make up
/// none, which is `SignatureDecodeError`.
pub fn signature_from_slice(bytes: &[u8]) -> (decoded: Result<[u8; 65], ChannelError>)
    ensures
        decoded.is_ok() == (bytes@.len() == 65),
        decoded.is_ok() ==> decoded.unwrap()@ == bytes@,
        decoded.is_err() ==> decoded == Err::<[u8; 65], ChannelError>(
            ChannelError::SignatureDecodeError,
        ),
{
    if bytes.len() != 65 {
        return Err(ChannelError::SignatureDecodeError);
    }
    let mut signature = [0u8; 65];
    let mut index: usize = 0;
    while index < 65
        invariant
            index <= 65,
            bytes@.len() == 65,
            signature@.len() == 65,
            forall|k: int| 0 <= k < index ==> signature@[k] == bytes@[k],
        decreases 65 - index,
    {
        signature[index] = bytes[index];
        index += 1;
    }
    Ok(signature)
}

/// What a history of signed rounds holds.
pub open spec fn signed_rounds_view(rounds: Seq<SignedRound>) -> Seq<SignedRoundView> {
    Seq::new(rounds.len(), |i: int| rounds[i]@)
}

/// The rounds of a history with their signatures, one after the other.
pub open spec fn chained_bytes(rounds: Seq<SignedRoundView>) -> Seq<u8>
    decreases rounds.len(),
{
    if rounds.len() == 0 {
        Seq::empty()
    } else {
        encode_round(rounds[0].round) + rounds[0].signature + chained_bytes(rounds.drop_first())
    }
}

/// The bytes that are signed for `round` when it follows `prior` in the
/// channel named by `script_hash` and `capacity`.
pub open spec fn round_payload(
    script_hash: Seq<u8>,
    capacity: u64,
    prior: Seq<SignedRoundView>,
    round: RoundView,
) -> Seq<u8> {
    script_hash + le64(capacity) + le64(prior.len() as u64) + chained_bytes(prior) + encode_round(
        round,
    )
}

/// The digest that is signed for `round`.
pub open spec fn round_message(
    script_hash: Seq<u8>,
    capacity: u64,
    prior: Seq<SignedRoundView>,
    round: RoundView,
) -> Seq<u8> {
    spec_blake2b_256(round_payload(script_hash, capacity, prior, round))
}

/// The fingerprint of the party that signs a round owned by `user_type`: the
/// other party. A type other than 1 and 2 owns no round.
pub open spec fn expected_signer(user_type: u8, user1_pkhash: Seq<u8>, user2_pkhash: Seq<u8>) -> Option<
    Seq<u8>,
> {
    if user_type == 1 {
        Some(user2_pkhash)
    } else if user_type == 2 {
        Some(user1_pkhash)
    } else {
        None
    }
}

/// The fingerprint that the signature of the round at `index` names, over the
/// history before it.
pub open spec fn round_signer(
    script_hash: Seq<u8>,
    capacity: u64,
    rounds: Seq<SignedRoundView>,
    index: int,
) -> Option<Seq<u8>> {
    spec_signer_hash(
        round_message(script_hash, capacity, rounds.take(index), rounds[index].round),
        rounds[index].signature,
    )
}

/// Whether the round at `index` carries the signature of its owner's
/// counterparty over the history before it.
pub open spec fn round_verifies(
    script_hash: Seq<u8>,
    capacity: u64,
    rounds: Seq<SignedRoundView>,
    index: int,
    user1_pkhash: Seq<u8>,
    user2_pkhash: Seq<u8>,
) -> bool {
    let signer = round_signer(script_hash, capacity, rounds, index);
    signer.is_some() && signer == expected_signer(
        rounds[index].round.user_type,
        user1_pkhash,
        user2_pkhash,
    )
}

/// Whether every signature of the history names a signer.
pub open spec fn chain_decodes(script_hash: Seq<u8>, capacity: u64, rounds: Seq<SignedRoundView>) -> bool {
    forall|i: int|
        0 <= i < rounds.len() ==> (#[trigger] round_signer(script_hash, capacity, rounds, i)).is_some()
}

/// Whether every round of the history verifies.
pub open spec fn chain_verifies(
    script_hash: Seq<u8>,
    capacity: u64,
    rounds: Seq<SignedRoundView>,
    user1_pkhash: Seq<u8>,
    user2_pkhash: Seq<u8>,
) -> bool {
    forall|i: int|
        0 <= i < rounds.len() ==> #[trigger] round_verifies(
            script_hash,
            capacity,
            rounds,
            i,
            user1_pkhash,
            user2_pkhash,
        )
}

/// Appending a signed round appends its bytes.
pub proof fn lemma_chained_bytes_push(rounds: Seq<SignedRoundView>, last: SignedRoundView)
    ensures
        chained_bytes(rounds.push(last)) == chained_bytes(rounds) + encode_round(last.round)
            + last.signature,
    decreases rounds.len(),
{
    let extended = rounds.push(last);
    if rounds.len() == 0 {
        assert(extended.drop_first() =~= Seq::<SignedRoundView>::empty());
        assert(chained_bytes(extended.drop_first()) =~= Seq::<u8>::empty());
        assert(chained_bytes(extended) =~= encode_round(last.round) + last.signature);
        assert(chained_bytes(rounds) + encode_round(last.round) + last.signature =~= encode_round(
            last.round,
        ) + last.signature);
    } else {
        lemma_chained_bytes_push(rounds.drop_first(), last);
        assert(extended.drop_first() =~= rounds.drop_first().push(last));
        assert(extended[0] == rounds[0]);
        assert(chained_bytes(extended) =~= chained_bytes(rounds) + encode_round(last.round)
            + last.signature);
    }
}

/// Whether every round of the history is encodable and every signature has
/// its 65 bytes. Every history held in memory is so.
pub open spec fn history_well_formed(rounds: Seq<SignedRoundView>) -> bool {
    &&& rounds.len() <= u64::MAX
    &&& forall|i: int|
        0 <= i < rounds.len() ==> encodable((#[trigger] rounds[i]).round) && rounds[i].signature.len()
            == 65
}

/// A round's verdict does not depend on what follows it: in a prefix of a
/// history every round verifies exactly where it verifies in the whole. So
/// every prefix of a history that verifies verifies, and every prefix of a
/// history whose signatures all name a signer is such a history.
pub proof fn lemma_prefix_verifies(
    script_hash: Seq<u8>,
    capacity: u64,
    rounds: Seq<SignedRoundView>,
    length: int,
    user1_pkhash: Seq<u8>,
    user2_pkhash: Seq<u8>,
)
    requires
        0 <= length <= rounds.len(),
    ensures
        forall|i: int|
            0 <= i < length ==> #[trigger] round_verifies(
                script_hash,
                capacity,
                rounds.take(length),
                i,
                user1_pkhash,
                user2_pkhash,
            ) == round_verifies(script_hash, capacity, rounds, i, user1_pkhash, user2_pkhash),
        chain_verifies(script_hash, capacity, rounds, user1_pkhash, user2_pkhash)
            ==> chain_verifies(script_hash, capacity, rounds.take(length), user1_pkhash, user2_pkhash),
        chain_decodes(script_hash, capacity, rounds) ==> chain_decodes(
            script_hash,
            capacity,
            rounds.take(length),
        ),
{
    let prefix = rounds.take(length);
    assert forall|i: int| 0 <= i < length implies round_signer(script_hash, capacity, prefix, i)
        == round_signer(script_hash, capacity, rounds, i) by {
        assert(prefix.take(i) =~= rounds.take(i));
        assert(prefix[i] == rounds[i]);
    }
    assert forall|i: int| 0 <= i < length implies #[trigger] round_verifies(
        script_hash,
        capacity,
        prefix,
        i,
        user1_pkhash,
        user2_pkhash,
    ) == round_verifies(script_hash, capacity, rounds, i, user1_pkhash, user2_pkhash) by {
        assert(round_signer(script_hash, capacity, prefix, i) == round_signer(
            script_hash,
            capacity,
            rounds,
            i,
        ));
        assert(prefix[i] == rounds[i]);
    }
    if chain_decodes(script_hash, capacity, rounds) {
        assert forall|i: int| 0 <= i < prefix.len() implies (#[trigger] round_signer(
            script_hash,
            capacity,
            prefix,
            i,
        )).is_some() by {
            assert(round_signer(script_hash, capacity, rounds, i).is_some());
        }
    }
}

/// The private key of the party that signs a round owned by `user_type`,
/// where `user1_key` and `user2_key` are the keys of the two parties.
pub open spec fn signing_key(user_type: u8, user1_key: Seq<u8>, user2_key: Seq<u8>) -> Seq<u8> {
    if user_type == 1 {
        user2_key
    } else {
        user1_key
    }
}

/// Whether the signature that a key gives for a message names that key as
/// its signer. This is what a signature scheme is for; it is asked of the
/// scheme here, not proved of it.
pub open spec fn signature_names_key(privkey: Seq<u8>, message: Seq<u8>) -> bool {
    match spec_sign_recoverable(privkey, message) {
        Some(signature) => spec_privkey_hash(privkey).is_some() && spec_signer_hash(message, signature)
            == spec_privkey_hash(privkey),
        None => false,
    }
}

/// Whether the round at `index` carries the signature that `sign_round`
/// gives for it over the history before it, with the key of its owner's
/// counterparty.
pub open spec fn round_signed_in_turn(
    script_hash: Seq<u8>,
    capacity: u64,
    rounds: Seq<SignedRoundView>,
    index: int,
    user1_key: Seq<u8>,
    user2_key: Seq<u8>,
) -> bool {
    let owner = rounds[index].round.user_type;
    let message = round_message(script_hash, capacity, rounds.take(index), rounds[index].round);
    let key = signing_key(owner, user1_key, user2_key);
    &&& owner == 1 || owner == 2
    &&& spec_sign_recoverable(key, message) == Some(rounds[index].signature)
    &&& signature_names_key(key, message)
}

/// A history in which every round was signed by `sign_round` over the
/// history before it, with the key of its owner's counterparty, verifies
/// against the fingerprints of the two keys, as far as the signature scheme
/// keeps its word on the messages of the history.
pub proof fn lemma_signed_history_verifies(
    script_hash: Seq<u8>,
    capacity: u64,
    rounds: Seq<SignedRoundView>,
    user1_key: Seq<u8>,
    user2_key: Seq<u8>,
)
    requires
        forall|i: int|
            0 <= i < rounds.len() ==> #[trigger] round_signed_in_turn(
                script_hash,
                capacity,
                rounds,
                i,
                user1_key,
                user2_key,
            ),
    ensures
        chain_decodes(script_hash, capacity, rounds),
        rounds.len() > 0 ==> chain_verifies(
            script_hash,
            capacity,
            rounds,
            spec_privkey_hash(user1_key).unwrap(),
            spec_privkey_hash(user2_key).unwrap(),
        ),
{
    assert forall|i: int| 0 <= i < rounds.len() implies (#[trigger] round_signer(
        script_hash,
        capacity,
        rounds,
        i,
    )).is_some() by {
        assert(round_signed_in_turn(script_hash, capacity, rounds, i, user1_key, user2_key));
    }
    if rounds.len() > 0 {
        assert forall|i: int| 0 <= i < rounds.len() implies #[trigger] round_verifies(
            script_hash,
            capacity,
            rounds,
            i,
            spec_privkey_hash(user1_key).unwrap(),
            spec_privkey_hash(user2_key).unwrap(),
        ) by {
            assert(round_signed_in_turn(script_hash, capacity, rounds, i, user1_key, user2_key));
        }
    }
}

/// The bytes of a history delimit themselves: where two histories of as
/// many rounds, each followed by some bytes, give the same bytes, the
/// histories are the same and so is what follows them.
pub proof fn lemma_chained_bytes_delimited(
    left: Seq<SignedRoundView>,
    left_tail: Seq<u8>,
    right: Seq<SignedRoundView>,
    right_tail: Seq<u8>,
)
    requires
        left.len() == right.len(),
        history_well_formed(left),
        history_well_formed(right),
        chained_bytes(left) + left_tail == chained_bytes(right) + right_tail,
    ensures
        left == right,
        left_tail == right_tail,
    decreases left.len(),
{
    if left.len() == 0 {
        assert(chained_bytes(left) + left_tail =~= left_tail);
        assert(chained_bytes(right) + right_tail =~= right_tail);
        assert(left =~= right);
    } else {
        let left_rest = left.drop_first();
        let right_rest = right.drop_first();
        let left_after = left[0].signature + (chained_bytes(left_rest) + left_tail);
        let right_after = right[0].signature + (chained_bytes(right_rest) + right_tail);
        assert(chained_bytes(left) + left_tail =~= encode_round(left[0].round) + left_after);
        assert(chained_bytes(right) + right_tail =~= encode_round(right[0].round) + right_after);
        lemma_encode_round_delimited(left[0].round, left_after, right[0].round, right_after);
        assert(left_after.subrange(0, 65) =~= left[0].signature);
        assert(right_after.subrange(0, 65) =~= right[0].signature);
        assert(left_after.skip(65) =~= chained_bytes(left_rest) + left_tail);
        assert(right_after.skip(65) =~= chained_bytes(right_rest) + right_tail);
        assert forall|i: int| 0 <= i < left_rest.len() implies encodable(
            (#[trigger] left_rest[i]).round,
        ) && left_rest[i].signature.len() == 65 by {
            assert(left_rest[i] == left[i + 1]);
        }
        assert forall|i: int| 0 <= i < right_rest.len() implies encodable(
            (#[trigger] right_rest[i]).round,
        ) && right_rest[i].signature.len() == 65 by {
            assert(right_rest[i] == right[i + 1]);
        }
        lemma_chained_bytes_delimited(left_rest, left_tail, right_rest, right_tail);
        assert(left[0] == right[0]);
        assert(left =~= seq![left[0]] + left_rest);
        assert(right =~= seq![right[0]] + right_rest);
    }
}

/// What is signed for a round names the channel, the history before the
/// round and the round itself: two payloads are the same only where the
/// script hashes, the capacities, the histories with all their rounds and
/// signatures, and the rounds are the same. So whoever changes a byte of a
/// round, or of the signature of a round that is not the last, changes what
/// the last signature has to sign.
pub proof fn lemma_round_payload_injective(
    left_hash: Seq<u8>,
    left_capacity: u64,
    left_prior: Seq<SignedRoundView>,
    left_round: RoundView,
    right_hash: Seq<u8>,
    right_capacity: u64,
    right_prior: Seq<SignedRoundView>,
    right_round: RoundView,
)
    requires
        left_hash.len() == 32,
        right_hash.len() == 32,
        history_well_formed(left_prior),
        history_well_formed(right_prior),
        encodable(left_round),
        encodable(right_round),
        round_payload(left_hash, left_capacity, left_prior, left_round) == round_payload(
            right_hash,
            right_capacity,
            right_prior,
            right_round,
        ),
    ensures
        left_hash == right_hash,
        left_capacity == right_capacity,
        left_prior == right_prior,
        left_round == right_round,
{
    let left = round_payload(left_hash, left_capacity, left_prior, left_round);
    let right = round_payload(right_hash, right_capacity, right_prior, right_round);
    lemma_le64_inverse();
    assert(left.subrange(0, 32) =~= left_hash);
    assert(right.subrange(0, 32) =~= right_hash);
    assert(left.subrange(32, 40) =~= le64(left_capacity));
    assert(right.subrange(32, 40) =~= le64(right_capacity));
    assert(from_le64(left.subrange(32, 40)) == from_le64(right.subrange(32, 40)));
    assert(left.subrange(40, 48) =~= le64(left_prior.len() as u64));
    assert(right.subrange(40, 48) =~= le64(right_prior.len() as u64));
    assert(from_le64(left.subrange(40, 48)) == from_le64(right.subrange(40, 48)));
    assert(left_prior.len() == right_prior.len());
    assert(left.skip(48) =~= chained_bytes(left_prior) + encode_round(left_round));
    assert(right.skip(48) =~= chained_bytes(right_prior) + encode_round(right_round));
    lemma_chained_bytes_delimited(
        left_prior,
        encode_round(left_round),
        right_prior,
        encode_round(right_round),
    );
    lemma_encode_round_injective(left_round, right_round);
}

/// The bytes that are signed for a round at position `index`, after the
/// `chained` bytes of the history before it.
fn build_payload(script_hash: &[u8; 32], capacity: u64, index: u64, chained: &[u8], encoded: &[u8]) -> (payload:
    Vec<u8>)
    ensures
        payload@ == script_hash@ + le64(capacity) + le64(index) + chained@ + encoded@,
{
    let mut payload: Vec<u8> = Vec::new();
    append_bytes(&mut payload, script_hash.as_slice());
    append_le64(&mut payload, capacity);
    append_le64(&mut payload, index);
    append_bytes(&mut payload, chained);
    append_bytes(&mut payload, encoded);
    payload
}

/// Signs `round` as the successor of `previous_rounds`.
///
/// The signature is the one that the private key gives for the digest of the
/// round's payload; `SigningFailed` comes back exactly where the key gives
/// none.
pub fn sign_round(
    script_hash: &[u8; 32],
    capacity: u64,
    previous_rounds: &Vec<SignedRound>,
    round: &Round,
    privkey: &[u8; 32],
) -> (signed: Result<[u8; 65], ChannelError>)
    ensures
        match signed {
            Ok(signature) => spec_sign_recoverable(
                privkey@,
                round_message(script_hash@, capacity, signed_rounds_view(previous_rounds@), round@),
            ) == Some(signature@),
            Err(error) => error == ChannelError::SigningFailed && spec_sign_recoverable(
                privkey@,
                round_message(script_hash@, capacity, signed_rounds_view(previous_rounds@), round@),
            ).is_none(),
        },
{
    let ghost prior = signed_rounds_view(previous_rounds@);
    let mut chained: Vec<u8> = Vec::new();
    let mut index: usize = 0;
    assert(prior.take(0) =~= Seq::<SignedRoundView>::empty());
    while index < previous_rounds.len()
        invariant
            index <= previous_rounds@.len(),
            prior == signed_rounds_view(previous_rounds@),
            chained@ == chained_bytes(prior.take(index as int)),
        decreases previous_rounds@.len() - index,
    {
        let encoded = previous_rounds[index].round.encode();
        append_bytes(&mut chained, encoded.as_slice());
        append_bytes(&mut chained, previous_rounds[index].signature.as_slice());
        proof {
            lemma_chained_bytes_push(prior.take(index as int), prior[index as int]);
            assert(prior.take(index as int).push(prior[index as int]) =~= prior.take(index + 1));
        }
        index += 1;
    }
    assert(prior.take(index as int) =~= prior);
    let encoded = round.encode();
    let payload = build_payload(
        script_hash,
        capacity,
        previous_rounds.len() as u64,
        chained.as_slice(),
        encoded.as_slice(),
    );
    let message = message_digest(payload.as_slice());
    match sign_recoverable(privkey, &message) {
        Some(bytes) => {
            match signature_from_slice(bytes.as_slice()) {
                Ok(signature) => Ok(signature),
                Err(_) => Err(ChannelError::SigningFailed),
            }
        },
        None => Err(ChannelError::SigningFailed),
    }
}

/// Verifies a history of signed rounds against the two parties' key
/// fingerprints.
///
/// For every round, in order, the payload that was signed is put together
/// again from the channel's identity, the round's position, all rounds and
/// signatures before it and the round itself, and the signer that the
/// signature names is held against the counterparty of the round's owner.
/// A signature that names no signer is an error, whatever the other rounds
/// hold; otherwise the answer is whether every round verifies.
pub fn verify_chain(
    script_hash: &[u8; 32],
    capacity: u64,
    signed_rounds: &Vec<SignedRound>,
    user1_pkhash: &[u8; 20],
    user2_pkhash: &[u8; 20],
) -> (verdict: Result<bool, ChannelError>)
    ensures
        match verdict {
            Ok(valid) => chain_decodes(script_hash@, capacity, signed_rounds_view(signed_rounds@))
                && valid == chain_verifies(
                script_hash@,
                capacity,
                signed_rounds_view(signed_rounds@),
                user1_pkhash@,
                user2_pkhash@,
            ),
            Err(error) => error == ChannelError::SignatureDecodeError && !chain_decodes(
                script_hash@,
                capacity,
                signed_rounds_view(signed_rounds@),
            ),
        },
{
    let ghost rounds = signed_rounds_view(signed_rounds@);
    let mut chained: Vec<u8> = Vec::new();
    let mut valid = true;
    let mut index: usize = 0;
    assert(rounds.take(0) =~= Seq::<SignedRoundView>::empty());
    while index < signed_rounds.len()
        invariant
            index <= signed_rounds@.len(),
            rounds == signed_rounds_view(signed_rounds@),
            chained@ == chained_bytes(rounds.take(index as int)),
            forall|i: int|
                0 <= i < index ==> (#[trigger] round_signer(script_hash@, capacity, rounds, i)).is_some(),
            valid == forall|i: int|
                0 <= i < index ==> #[trigger] round_verifies(
                    script_hash@,
                    capacity,
                    rounds,
                    i,
                    user1_pkhash@,
                    user2_pkhash@,
                ),
        decreases signed_rounds@.len() - index,
    {
        let entry = &signed_rounds[index];
        let encoded = entry.round.encode();
        let payload = build_payload(
            script_hash,
            capacity,
            index as u64,
            chained.as_slice(),
            encoded.as_slice(),
        );
        assert(rounds.take(index as int).len() == index);
        assert(payload@ == round_payload(
            script_hash@,
            capacity,
            rounds.take(index as int),
            rounds[index as int].round,
        ));
        let message = message_digest(payload.as_slice());
        match signer_hash(&message, &entry.signature) {
            None => {
                assert(round_signer(script_hash@, capacity, rounds, index as int).is_none());
                return Err(ChannelError::SignatureDecodeError);
            },
            Some(signer) => {
                let matches = if entry.round.user_type == 1 {
                    bytes_equal(signer.as_slice(), user2_pkhash.as_slice())
                } else if entry.round.user_type == 2 {
                    bytes_equal(signer.as_slice(), user1_pkhash.as_slice())
                } else {
                    false
                };
                assert(matches == round_verifies(
                    script_hash@,
                    capacity,
                    rounds,
                    index as int,
                    user1_pkhash@,
                    user2_pkhash@,
                ));
                if !matches {
                    valid = false;
                }
            },
        }
        append_bytes(&mut chained, encoded.as_slice());
        append_bytes(&mut chained, entry.signature.as_slice());
        proof {
            lemma_chained_bytes_push(rounds.take(index as int), rounds[index as int]);
            assert(rounds.take(index as int).push(rounds[index as int]) =~= rounds.take(index + 1));
        }
        index += 1;
    }
    Ok(valid)
}

} // verus!
