use kabletop_godot_sdk::chain::{sign_round, signature_from_slice, verify_chain, SignedRound};
use kabletop_godot_sdk::crypto::{message_digest, privkey_to_pkhash, pubkey_hash, signer_hash};
use kabletop_godot_sdk::error::ChannelError;
use kabletop_godot_sdk::round::make_round;

const KEY_A: [u8; 32] = [0x11; 32];
const KEY_B: [u8; 32] = [0x22; 32];
const KEY_C: [u8; 32] = [0x33; 32];
const SCRIPT_HASH: [u8; 32] = [0xab; 32];
const CAPACITY: u64 = 80_000_000_000;

fn operations(texts: &[&str]) -> Vec<String> {
    texts.iter().map(|text| text.to_string()).collect()
}

fn pkhash(key: &[u8; 32]) -> [u8; 20] {
    privkey_to_pkhash(key).expect("a private key")
}

/// A history in which party 1 (key A) and party 2 (key B) take turns, each
/// round signed by the owner's counterparty.
fn history(rounds: &[(u8, &[&str])]) -> Vec<SignedRound> {
    let mut signed: Vec<SignedRound> = Vec::new();
    for (owner, texts) in rounds {
        let round = make_round(*owner, operations(texts));
        let signer = if *owner == 1 { &KEY_B } else { &KEY_A };
        let signature = sign_round(&SCRIPT_HASH, CAPACITY, &signed, &round, signer).expect("signed");
        signed.push(SignedRound { round, signature });
    }
    signed
}

#[test]
fn digest_is_the_ckb_hash() {
    let blank: [u8; 32] = [
        68, 244, 198, 151, 68, 213, 248, 197, 93, 100, 32, 98, 148, 157, 202, 228, 155, 196, 231, 239,
        67, 211, 136, 197, 161, 47, 66, 181, 99, 61, 22, 62,
    ];
    assert_eq!(message_digest(&[]), blank);
    assert_eq!(message_digest(b"ckb"), ckb_hash::blake2b_256(b"ckb"));
    assert_ne!(message_digest(b"ckb"), message_digest(b"ckc"));
}

#[test]
fn pubkey_hash_is_the_first_twenty_bytes_of_the_digest() {
    let pubkey = ckb_crypto::secp::Privkey::from_slice(&KEY_A).pubkey().unwrap().serialize();
    assert_eq!(pubkey.len(), 33);
    let digest = ckb_hash::blake2b_256(&pubkey);
    assert_eq!(pubkey_hash(&pubkey)[..], digest[..20]);
    assert_eq!(privkey_to_pkhash(&KEY_A).unwrap()[..], digest[..20]);
}

#[test]
fn a_zero_private_key_has_no_fingerprint() {
    assert_eq!(privkey_to_pkhash(&[0u8; 32]), None);
}

#[test]
fn signer_of_a_signed_round_is_the_key_that_signed() {
    let round = make_round(1, operations(&["draw"]));
    let signature = sign_round(&SCRIPT_HASH, CAPACITY, &vec![], &round, &KEY_B).unwrap();
    let mut payload = Vec::new();
    payload.extend_from_slice(&SCRIPT_HASH);
    payload.extend_from_slice(&CAPACITY.to_le_bytes());
    payload.extend_from_slice(&0u64.to_le_bytes());
    payload.extend_from_slice(&round.encode());
    let message = message_digest(&payload);
    assert_eq!(signer_hash(&message, &signature), Some(pkhash(&KEY_B)));
    assert_ne!(signer_hash(&message, &signature), Some(pkhash(&KEY_A)));
}

#[test]
fn payload_of_a_later_round_holds_the_earlier_rounds_and_signatures() {
    let signed = history(&[(1, &["draw", "attack:3"])]);
    let round = make_round(2, operations(&["defend"]));
    let signature = sign_round(&SCRIPT_HASH, CAPACITY, &signed, &round, &KEY_A).unwrap();
    let mut payload = Vec::new();
    payload.extend_from_slice(&SCRIPT_HASH);
    payload.extend_from_slice(&CAPACITY.to_le_bytes());
    payload.extend_from_slice(&1u64.to_le_bytes());
    payload.extend_from_slice(&signed[0].round.encode());
    payload.extend_from_slice(&signed[0].signature);
    payload.extend_from_slice(&round.encode());
    let message = message_digest(&payload);
    assert_eq!(signer_hash(&message, &signature), Some(pkhash(&KEY_A)));
}

#[test]
fn signing_is_a_function_of_key_and_payload() {
    let round = make_round(1, operations(&["draw"]));
    let first = sign_round(&SCRIPT_HASH, CAPACITY, &vec![], &round, &KEY_B).unwrap();
    let second = sign_round(&SCRIPT_HASH, CAPACITY, &vec![], &round, &KEY_B).unwrap();
    assert_eq!(first, second);
    let other = sign_round(&SCRIPT_HASH, CAPACITY + 1, &vec![], &round, &KEY_B).unwrap();
    assert_ne!(first, other);
}

#[test]
fn signing_with_a_zero_key_fails() {
    let round = make_round(1, operations(&["draw"]));
    assert_eq!(
        sign_round(&SCRIPT_HASH, CAPACITY, &vec![], &round, &[0u8; 32]),
        Err(ChannelError::SigningFailed)
    );
}

#[test]
fn empty_history_verifies() {
    assert_eq!(verify_chain(&SCRIPT_HASH, CAPACITY, &vec![], &pkhash(&KEY_A), &pkhash(&KEY_B)), Ok(true));
}

#[test]
fn history_and_all_its_prefixes_verify() {
    let signed = history(&[(1, &["draw", "attack:3"]), (2, &["defend"]), (1, &[]), (2, &["end"])]);
    for length in 0..=signed.len() {
        let prefix = signed[..length].to_vec();
        assert_eq!(
            verify_chain(&SCRIPT_HASH, CAPACITY, &prefix, &pkhash(&KEY_A), &pkhash(&KEY_B)),
            Ok(true)
        );
    }
}

#[test]
fn history_does_not_verify_under_another_identity() {
    let signed = history(&[(1, &["draw"]), (2, &["defend"])]);
    let (a, b) = (pkhash(&KEY_A), pkhash(&KEY_B));
    assert_eq!(verify_chain(&[0xac; 32], CAPACITY, &signed, &a, &b), Ok(false));
    assert_eq!(verify_chain(&SCRIPT_HASH, CAPACITY - 1, &signed, &a, &b), Ok(false));
    assert_eq!(verify_chain(&SCRIPT_HASH, CAPACITY, &signed, &b, &a), Ok(false));
}

#[test]
fn changed_operation_in_an_early_round_fails_the_chain() {
    let mut signed = history(&[(1, &["draw"]), (2, &["defend"]), (1, &["attack:1"])]);
    signed[0].round.operations[0] = "drew".to_string();
    assert_eq!(
        verify_chain(&SCRIPT_HASH, CAPACITY, &signed, &pkhash(&KEY_A), &pkhash(&KEY_B)),
        Ok(false)
    );
}

#[test]
fn changed_owner_of_a_round_fails_the_chain() {
    let mut signed = history(&[(1, &["draw"]), (2, &["defend"])]);
    signed[1].round.user_type = 1;
    assert_eq!(
        verify_chain(&SCRIPT_HASH, CAPACITY, &signed, &pkhash(&KEY_A), &pkhash(&KEY_B)),
        Ok(false)
    );
}

#[test]
fn dropped_round_in_the_middle_fails_the_chain() {
    let mut signed = history(&[(1, &["draw"]), (2, &["defend"]), (1, &["attack:1"])]);
    signed.remove(1);
    assert_eq!(
        verify_chain(&SCRIPT_HASH, CAPACITY, &signed, &pkhash(&KEY_A), &pkhash(&KEY_B)),
        Ok(false)
    );
}

#[test]
fn round_of_an_unknown_owner_fails_the_chain() {
    let round = make_round(3, operations(&["draw"]));
    let signature = sign_round(&SCRIPT_HASH, CAPACITY, &vec![], &round, &KEY_B).unwrap();
    let signed = vec![SignedRound { round, signature }];
    assert_eq!(
        verify_chain(&SCRIPT_HASH, CAPACITY, &signed, &pkhash(&KEY_A), &pkhash(&KEY_B)),
        Ok(false)
    );
}

#[test]
fn forged_signature_on_round_two_is_false_not_an_error() {
    let mut signed = history(&[(1, &["draw", "attack:3"])]);
    let round = make_round(2, operations(&["defend"]));
    let forged = sign_round(&SCRIPT_HASH, CAPACITY, &signed, &round, &KEY_C).unwrap();
    signed.push(SignedRound { round, signature: forged });
    assert_eq!(
        verify_chain(&SCRIPT_HASH, CAPACITY, &signed, &pkhash(&KEY_A), &pkhash(&KEY_B)),
        Ok(false)
    );
}

#[test]
fn signature_that_names_no_signer_is_an_error() {
    let mut signed = history(&[(1, &["draw"]), (2, &["defend"])]);
    signed[0].signature[64] = 9;
    assert_eq!(
        verify_chain(&SCRIPT_HASH, CAPACITY, &signed, &pkhash(&KEY_A), &pkhash(&KEY_B)),
        Err(ChannelError::SignatureDecodeError)
    );
    let mut signed = history(&[(1, &["draw"]), (2, &["defend"])]);
    signed[1].signature = [0u8; 65];
    assert_eq!(
        verify_chain(&SCRIPT_HASH, CAPACITY, &signed, &pkhash(&KEY_A), &pkhash(&KEY_B)),
        Err(ChannelError::SignatureDecodeError)
    );
}

#[test]
fn error_wins_over_a_wrong_signer_elsewhere() {
    let mut signed = history(&[(1, &["draw"]), (2, &["defend"])]);
    signed[0].round.operations[0] = "drew".to_string();
    signed[1].signature[64] = 9;
    assert_eq!(
        verify_chain(&SCRIPT_HASH, CAPACITY, &signed, &pkhash(&KEY_A), &pkhash(&KEY_B)),
        Err(ChannelError::SignatureDecodeError)
    );
}

#[test]
fn signature_is_made_of_exactly_65_bytes() {
    let bytes: Vec<u8> = (0..65).collect();
    let signature = signature_from_slice(&bytes).unwrap();
    assert_eq!(signature.to_vec(), bytes);
    assert_eq!(signature_from_slice(&bytes[..64]), Err(ChannelError::SignatureDecodeError));
    let mut longer = bytes.clone();
    longer.push(0);
    assert_eq!(signature_from_slice(&longer), Err(ChannelError::SignatureDecodeError));
    assert_eq!(signature_from_slice(&[]), Err(ChannelError::SignatureDecodeError));
}

/// The signature with `s` replaced by the order of the group minus `s` and
/// the recovery bit flipped: another signature of the same key for the same
/// message.
fn mirrored(signature: &[u8; 65]) -> [u8; 65] {
    const ORDER: [u8; 32] = [
        0xff, 0xff, 0xff, 0xff, 0xff, 0xff, 0xff, 0xff, 0xff, 0xff, 0xff, 0xff, 0xff, 0xff, 0xff, 0xfe, 0xba, 0xae,
        0xdc, 0xe6, 0xaf, 0x48, 0xa0, 0x3b, 0xbf, 0xd2, 0x5e, 0x8c, 0xd0, 0x36, 0x41, 0x41,
    ];
    let mut mirrored = *signature;
    let mut borrow = 0i16;
    for index in (0..32).rev() {
        let mut digit = ORDER[index] as i16 - signature[32 + index] as i16 - borrow;
        if digit < 0 {
            digit += 256;
            borrow = 1;
        } else {
            borrow = 0;
        }
        mirrored[32 + index] = digit as u8;
    }
    mirrored[64] ^= 1;
    mirrored
}

#[test]
fn mirrored_signature_verifies_in_the_last_round_only() {
    let (a, b) = (pkhash(&KEY_A), pkhash(&KEY_B));
    let signed = history(&[(1, &["draw"]), (2, &["defend"])]);

    let mut last = signed.clone();
    last[1].signature = mirrored(&signed[1].signature);
    assert_ne!(last[1].signature, signed[1].signature);
    assert_eq!(verify_chain(&SCRIPT_HASH, CAPACITY, &last, &a, &b), Ok(true));

    let mut first = signed.clone();
    first[0].signature = mirrored(&signed[0].signature);
    assert_eq!(verify_chain(&SCRIPT_HASH, CAPACITY, &first, &a, &b), Ok(false));
}
