use intersolar::codec::{
    deserialize_object, deserialize_type_mapper, serialize_object, serialize_type_mapper,
};
use intersolar::errors::ErrorCode;
use intersolar::intersolar::Intersolar;
use intersolar::keys::Pubkey;
use intersolar::type_mapper::IntersolarTypeMapper;

fn key(b: u8) -> Pubkey {
    Pubkey::new(vec![b; 32]).unwrap()
}

#[test]
fn type_mapper_record_serializes_byte_exact() {
    let rec = IntersolarTypeMapper { type_code: 7, bump: 0xAB };
    let bytes = serialize_type_mapper(&rec);
    let mut expected = b"typemapr".to_vec();
    expected.push(7);
    expected.push(0xAB);
    assert_eq!(bytes, expected);
}

#[test]
fn type_mapper_record_round_trips() {
    let rec = IntersolarTypeMapper { type_code: 255, bump: 0 };
    let bytes = serialize_type_mapper(&rec);
    assert_eq!(deserialize_type_mapper(&bytes), Ok(rec));
}

#[test]
fn type_mapper_decode_rejects_wrong_length_and_discriminator() {
    assert_eq!(deserialize_type_mapper(&vec![]), Err(ErrorCode::Uninitialized));
    assert_eq!(
        deserialize_type_mapper(&b"typemapr\x07".to_vec()),
        Err(ErrorCode::Uninitialized)
    );
    assert_eq!(
        deserialize_type_mapper(&b"TYPEMAPR\x07\x01".to_vec()),
        Err(ErrorCode::Uninitialized)
    );
}

#[test]
fn object_record_without_name_serializes_byte_exact() {
    let rec = Intersolar { mint: key(2), type_code: 7, name: None, bump: 42 };
    let bytes = serialize_object(&rec);
    let mut expected = b"intrsolr".to_vec();
    expected.extend_from_slice(&[2u8; 32]);
    expected.push(7);
    expected.push(0);
    expected.push(42);
    assert_eq!(bytes, expected);
}

#[test]
fn object_record_with_name_serializes_byte_exact() {
    let rec = Intersolar {
        mint: key(2),
        type_code: 7,
        name: Some(b"Comet".to_vec()),
        bump: 42,
    };
    let bytes = serialize_object(&rec);
    let mut expected = b"intrsolr".to_vec();
    expected.extend_from_slice(&[2u8; 32]);
    expected.push(7);
    expected.push(1);
    // Little-endian four-byte length prefix.
    expected.extend_from_slice(&[5, 0, 0, 0]);
    expected.extend_from_slice(b"Comet");
    expected.push(42);
    assert_eq!(bytes, expected);
}

#[test]
fn object_record_round_trips() {
    let rec = Intersolar {
        mint: key(9),
        type_code: 0,
        name: Some(vec![b'n'; 32]),
        bump: 255,
    };
    let bytes = serialize_object(&rec);
    let back = deserialize_object(&bytes).unwrap();
    assert_eq!(back.mint.as_bytes(), rec.mint.as_bytes());
    assert_eq!(back.type_code, rec.type_code);
    assert_eq!(back.name, rec.name);
    assert_eq!(back.bump, rec.bump);

    let rec = Intersolar { mint: key(9), type_code: 3, name: None, bump: 0 };
    let bytes = serialize_object(&rec);
    let back = deserialize_object(&bytes).unwrap();
    assert_eq!(back.name, None);
    assert_eq!(back.type_code, 3);
}

#[test]
fn object_decode_rejects_malformed_layouts() {
    // Too short.
    assert_eq!(deserialize_object(&vec![0; 10]).unwrap_err(), ErrorCode::Uninitialized);
    // Wrong discriminator.
    let rec = Intersolar { mint: key(2), type_code: 7, name: None, bump: 42 };
    let mut bytes = serialize_object(&rec);
    bytes[0] ^= 0xFF;
    assert_eq!(deserialize_object(&bytes).unwrap_err(), ErrorCode::Uninitialized);
    // Trailing garbage after a nameless record.
    let mut bytes = serialize_object(&rec);
    bytes.push(0);
    assert_eq!(deserialize_object(&bytes).unwrap_err(), ErrorCode::Uninitialized);
    // Presence byte that is neither absent nor present.
    let mut bytes = serialize_object(&rec);
    bytes[41] = 2;
    assert_eq!(deserialize_object(&bytes).unwrap_err(), ErrorCode::Uninitialized);
    // A declared name length that disagrees with the actual bytes.
    let named = Intersolar {
        mint: key(2),
        type_code: 7,
        name: Some(b"Comet".to_vec()),
        bump: 42,
    };
    let mut bytes = serialize_object(&named);
    bytes[42] = 6;
    assert_eq!(deserialize_object(&bytes).unwrap_err(), ErrorCode::Uninitialized);
    // A non-zero high byte in the length prefix.
    let mut bytes = serialize_object(&named);
    bytes[43] = 1;
    assert_eq!(deserialize_object(&bytes).unwrap_err(), ErrorCode::Uninitialized);
    // A declared name length over the limit.
    let mut long = b"intrsolr".to_vec();
    long.extend_from_slice(&[2u8; 32]);
    long.push(7);
    long.push(1);
    long.extend_from_slice(&[33, 0, 0, 0]);
    long.extend_from_slice(&[b'n'; 33]);
    long.push(42);
    assert_eq!(deserialize_object(&long).unwrap_err(), ErrorCode::Uninitialized);
}
