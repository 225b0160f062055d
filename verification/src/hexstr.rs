//! Bytes written as hexadecimal text, as the `hex` crate writes and reads
//! them.

use vstd::prelude::*;

verus! {

/// The lower-case hexadecimal digit of a number below 16.
pub open spec fn hex_digit(nibble: int) -> char {
    if nibble < 10 {
        (48 + nibble) as char
    } else {
        (87 + nibble) as char
    }
}

/// The text of a byte string: two lower-case digits for each byte, the high
/// half first.
pub open spec fn hex_text(bytes: Seq<u8>) -> Seq<char> {
    Seq::new(
        2 * bytes.len(),
        |i: int|
            if i % 2 == 0 {
                hex_digit(bytes[i / 2] as int / 16)
            } else {
                hex_digit(bytes[i / 2] as int % 16)
            },
    )
}

/// The number that a hexadecimal digit of either case stands for.
pub open spec fn hex_value(digit: char) -> Option<int> {
    let code = digit as int;
    if 48 <= code <= 57 {
        Some(code - 48)
    } else if 97 <= code <= 102 {
        Some(code - 87)
    } else if 65 <= code <= 70 {
        Some(code - 55)
    } else {
        None
    }
}

/// Whether a text is made of an even number of hexadecimal digits.
pub open spec fn is_hex_text(text: Seq<char>) -> bool {
    &&& text.len() % 2 == 0
    &&& forall|i: int| 0 <= i < text.len() ==> (#[trigger] hex_value(text[i])).is_some()
}

/// The bytes that a hexadecimal text spells.
pub open spec fn hex_bytes(text: Seq<char>) -> Seq<u8> {
    Seq::new(
        text.len() / 2,
        |i: int| (hex_value(text[2 * i]).unwrap() * 16 + hex_value(text[2 * i + 1]).unwrap()) as u8,
    )
}

/// Calls `hex::encode`, which writes each byte as two lower-case digits.
#[verifier::external_body]
pub(crate) fn hex_encode(data: &[u8]) -> (text: String)
    ensures
        text@ == hex_text(data@),
{
    hex::encode(data)
}

/// Calls `hex::decode`, which reads digits of either case and gives nothing
/// for a text of odd length or with another character in it.
#[verifier::external_body]
pub(crate) fn hex_decode(text: &str) -> (bytes: Option<Vec<u8>>)
    ensures
        bytes.is_some() == is_hex_text(text@),
        bytes.is_some() ==> bytes.unwrap()@ == hex_bytes(text@),
{
    hex::decode(text).ok()
}

/// The text of a byte string spells that byte string.
pub proof fn lemma_hex_text_spells(bytes: Seq<u8>)
    ensures
        is_hex_text(hex_text(bytes)),
        hex_bytes(hex_text(bytes)) == bytes,
{
}

/// The hexadecimal text of each of the assets.
pub fn from_nfts(value: &Vec<[u8; 20]>) -> (texts: Vec<String>)
    ensures
        texts@.len() == value@.len(),
        forall|i: int| 0 <= i < value@.len() ==> (#[trigger] texts@[i])@ == hex_text(value@[i]@),
{
    let mut texts: Vec<String> = Vec::new();
    let mut index: usize = 0;
    while index < value.len()
        invariant
            index <= value@.len(),
            texts@.len() == index,
            forall|i: int| 0 <= i < index ==> (#[trigger] texts@[i])@ == hex_text(value@[i]@),
        decreases value@.len() - index,
    {
        texts.push(hex_encode(value[index].as_slice()));
        index += 1;
    }
    texts
}

/// Whether a text spells an asset: 20 bytes in hexadecimal digits.
pub open spec fn is_nft_text(text: Seq<char>) -> bool {
    is_hex_text(text) && text.len() == 40
}

/// The asset that a text spells, or nothing where it spells none.
pub fn blake160_to_byte20(text: &str) -> (nft: Option<[u8; 20]>)
    ensures
        nft.is_some() == is_nft_text(text@),
        nft.is_some() ==> nft.unwrap()@ == hex_bytes(text@),
{
    match hex_decode(text) {
        None => None,
        Some(bytes) => {
            if bytes.len() != 20 {
                return None;
            }
            let mut nft = [0u8; 20];
            let mut index: usize = 0;
            while index < 20
                invariant
                    index <= 20,
                    bytes@.len() == 20,
                    nft@.len() == 20,
                    forall|k: int| 0 <= k < index ==> nft@[k] == bytes@[k],
                decreases 20 - index,
            {
                nft[index] = bytes[index];
                index += 1;
            }
            Some(nft)
        },
    }
}

/// The assets that the texts spell, or nothing where one of them spells
/// none.
pub fn into_nfts(value: &Vec<String>) -> (nfts: Option<Vec<[u8; 20]>>)
    ensures
        nfts.is_some() == (forall|i: int| 0 <= i < value@.len() ==> is_nft_text(#[trigger] value@[i]@)),
        nfts.is_some() ==> nfts.unwrap()@.len() == value@.len() && forall|i: int|
            0 <= i < value@.len() ==> (#[trigger] nfts.unwrap()@[i])@ == hex_bytes(value@[i]@),
{
    let mut nfts: Vec<[u8; 20]> = Vec::new();
    let mut index: usize = 0;
    while index < value.len()
        invariant
            index <= value@.len(),
            nfts@.len() == index,
            forall|i: int| 0 <= i < index ==> is_nft_text(#[trigger] value@[i]@),
            forall|i: int| 0 <= i < index ==> (#[trigger] nfts@[i])@ == hex_bytes(value@[i]@),
        decreases value@.len() - index,
    {
        match blake160_to_byte20(value[index].as_str()) {
            Some(nft) => {
                nfts.push(nft);
            },
            None => {
                return None;
            },
        }
        index += 1;
    }
    Some(nfts)
}

} // verus!
