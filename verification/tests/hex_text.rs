use kabletop_godot_sdk::hexstr::{blake160_to_byte20, from_nfts, into_nfts};

#[test]
fn assets_are_written_in_lower_case_digits() {
    let mut nft = [0u8; 20];
    for (index, byte) in nft.iter_mut().enumerate() {
        *byte = (index as u8) * 13 + 7;
    }
    let expected: String = nft.iter().map(|byte| format!("{:02x}", byte)).collect();
    assert_eq!(from_nfts(&vec![nft, [0xff; 20]]), vec![expected, "ff".repeat(20)]);
    assert!(from_nfts(&vec![]).is_empty());
}

#[test]
fn assets_are_read_in_either_case() {
    assert_eq!(blake160_to_byte20(&"0A".repeat(20)), Some([0x0a; 20]));
    assert_eq!(blake160_to_byte20(&"0a".repeat(20)), Some([0x0a; 20]));
    assert_eq!(blake160_to_byte20("00112233445566778899aAbBcCdDeEfF00112233"), Some([
        0x00, 0x11, 0x22, 0x33, 0x44, 0x55, 0x66, 0x77, 0x88, 0x99, 0xaa, 0xbb, 0xcc, 0xdd, 0xee, 0xff, 0x00, 0x11,
        0x22, 0x33,
    ]));
}

#[test]
fn text_that_spells_no_asset_is_refused() {
    assert_eq!(blake160_to_byte20(""), None);
    assert_eq!(blake160_to_byte20(&"0a".repeat(19)), None);
    assert_eq!(blake160_to_byte20(&"0a".repeat(21)), None);
    assert_eq!(blake160_to_byte20(&format!("{}g", "0".repeat(39))), None);
    assert_eq!(blake160_to_byte20(&"0".repeat(39)), None);
    assert_eq!(blake160_to_byte20(&"\u{e9}".repeat(20)), None);
}

#[test]
fn reading_inverts_writing() {
    let nfts = vec![[0x00; 20], [0x9f; 20], [0xf0; 20]];
    assert_eq!(into_nfts(&from_nfts(&nfts)), Some(nfts));
    assert_eq!(into_nfts(&vec![]), Some(vec![]));
    assert_eq!(into_nfts(&vec!["00".repeat(20), "xy".repeat(20)]), None);
}
