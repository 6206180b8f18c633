// Hex codec tests: round trips, canonical lowercase output, and the
// distinct rejection of each kind of malformed text.

use fee_manager::codec::BlsPubkey;
use fee_manager::codec::CodecError;
use fee_manager::codec::EthAddress;

fn bls_from(bytes: Vec<u8>) -> BlsPubkey {
    BlsPubkey::from_bytes(bytes).unwrap()
}

fn addr_from(bytes: Vec<u8>) -> EthAddress {
    EthAddress::from_bytes(bytes).unwrap()
}

#[test]
fn bls_pubkey1() {
    let body = "00".repeat(47);
    let addr_str = format!("0x{}01", body);
    let mut value = vec![0u8; 48];
    value[47] = 1;
    let addr = bls_from(value);

    let serialized = addr.to_hex();
    let deserialized = BlsPubkey::parse(&addr_str).unwrap();

    assert_eq!(serialized, addr_str);
    assert_eq!(deserialized, addr);
}

#[test]
fn bls_pubkey255() {
    let body = "00".repeat(46);
    let addr_str = format!("0x0a{}ff", body);
    let mut value = vec![0u8; 48];
    value[0] = 10;
    value[47] = 255;
    let addr = bls_from(value);

    let serialized = addr.to_hex();
    let deserialized = BlsPubkey::parse(&addr_str).unwrap();

    assert_eq!(serialized, addr_str);
    assert_eq!(deserialized, addr);
}

#[test]
#[should_panic(expected = "OddHexLength")]
fn bls_pubkey_wrong1() {
    let body = "00".repeat(47);
    let addr_str = format!("0x{}1", body);
    let _ = BlsPubkey::parse(&addr_str).unwrap();
}

#[test]
#[should_panic(expected = "InvalidLength")]
fn bls_pubkey_wrong2() {
    let body = "00".repeat(47);
    let addr_str = format!("0x{}", body);
    let _ = BlsPubkey::parse(&addr_str).unwrap();
}

#[test]
#[should_panic(expected = "MissingPrefix")]
fn bls_execution_address_wrong_start() {
    let body = "00".repeat(47);
    let addr_str = format!("{}01", body);
    let _ = BlsPubkey::parse(&addr_str).unwrap();
}

#[test]
fn execution_address1() {
    let body = "00".repeat(19);
    let addr_str = format!("0x{}01", body);
    let mut value = vec![0u8; 20];
    value[19] = 1;
    let addr = addr_from(value);

    let serialized = addr.to_hex();
    let deserialized = EthAddress::parse(&addr_str).unwrap();

    assert_eq!(serialized, addr_str);
    assert_eq!(deserialized, addr);
}

#[test]
fn execution_address255() {
    let body = "00".repeat(18);
    let addr_str = format!("0x0a{}ff", body);
    let mut value = vec![0u8; 20];
    value[0] = 10;
    value[19] = 255;
    let addr = addr_from(value);

    let serialized = addr.to_hex();
    let deserialized = EthAddress::parse(&addr_str).unwrap();

    assert_eq!(serialized, addr_str);
    assert_eq!(deserialized, addr);
}

#[test]
#[should_panic(expected = "OddHexLength")]
fn execution_address_wrong1() {
    let body = "00".repeat(19);
    let addr_str = format!("0x{}1", body);
    let _ = EthAddress::parse(&addr_str).unwrap();
}

#[test]
#[should_panic(expected = "InvalidLength")]
fn execution_address_wrong2() {
    let body = "00".repeat(19);
    let addr_str = format!("0x{}", body);
    let _ = EthAddress::parse(&addr_str).unwrap();
}

#[test]
#[should_panic(expected = "MissingPrefix")]
fn execution_execution_address_wrong_start() {
    let body = "00".repeat(19);
    let addr_str = format!("{}01", body);
    let _ = EthAddress::parse(&addr_str).unwrap();
}

#[test]
fn round_trip_all_byte_values() {
    // Every byte value appears somewhere across these arrays.
    for start in [0u8, 13, 100, 200] {
        let bytes: Vec<u8> = (0..48u16).map(|i| (start as u16 + 5 * i) as u8).collect();
        let key = bls_from(bytes.clone());
        let text = key.to_hex();
        let back = BlsPubkey::parse(&text).unwrap();
        assert_eq!(back.bytes().as_slice(), bytes.as_slice());

        let bytes20: Vec<u8> = bytes[..20].to_vec();
        let addr = addr_from(bytes20.clone());
        let back = EthAddress::parse(&addr.to_hex()).unwrap();
        assert_eq!(back.bytes().as_slice(), bytes20.as_slice());
    }
}

#[test]
fn decode_is_case_insensitive_and_encode_is_lowercase() {
    let upper = format!("0xAB{}", "CD".repeat(19));
    let addr = EthAddress::parse(&upper).unwrap();
    let canonical = addr.to_hex();
    assert_eq!(canonical, upper.to_lowercase());
    // Mixed case parses to the same value.
    let mixed = format!("0xaB{}", "Cd".repeat(19));
    assert_eq!(EthAddress::parse(&mixed).unwrap(), addr);
}

#[test]
fn rejections_are_distinct() {
    // Missing prefix.
    assert_eq!(
        EthAddress::parse(&"12".repeat(21)).unwrap_err(),
        CodecError::MissingPrefix
    );
    // Odd number of hex digits.
    assert_eq!(
        EthAddress::parse(&format!("0x{}1", "12".repeat(19))).unwrap_err(),
        CodecError::OddHexLength
    );
    // A non-hex character.
    assert_eq!(
        EthAddress::parse(&format!("0xzz{}", "12".repeat(19))).unwrap_err(),
        CodecError::InvalidHexChar
    );
    // Well-formed hex of the wrong width.
    assert_eq!(
        EthAddress::parse(&format!("0x{}", "12".repeat(48))).unwrap_err(),
        CodecError::InvalidLength
    );
    // A 20-byte text is not a 48-byte key.
    assert_eq!(
        BlsPubkey::parse(&format!("0x{}", "12".repeat(20))).unwrap_err(),
        CodecError::InvalidLength
    );
}

#[test]
fn matches_hex_crate() {
    let bytes: Vec<u8> = (0..20u8).map(|i| i.wrapping_mul(13).wrapping_add(7)).collect();
    let addr = addr_from(bytes.clone());
    assert_eq!(addr.to_hex(), format!("0x{}", hex::encode(&bytes)));

    let text = format!("0x{}", "a0b1c2d3e4f5".repeat(8));
    let key = BlsPubkey::parse(&text).unwrap();
    assert_eq!(key.bytes().as_slice(), hex::decode(&text[2..]).unwrap().as_slice());
}

#[test]
fn from_bytes_rejects_wrong_width() {
    assert_eq!(
        BlsPubkey::from_bytes(vec![0u8; 47]).unwrap_err(),
        CodecError::InvalidLength
    );
    assert_eq!(
        EthAddress::from_bytes(vec![0u8; 21]).unwrap_err(),
        CodecError::InvalidLength
    );
}
