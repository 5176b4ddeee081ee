use sealed_relay::bundle::Bundle;
use sealed_relay::error::{BundleField, FormatError};

fn sample() -> Bundle {
    Bundle { ciphertext: vec![0xde, 0xad, 0xbe, 0xef, 0x01], enc_key: vec![7, 8, 9] }
}

#[test]
fn serialize_writes_length_prefixed_fields_in_order() {
    let bytes = sample().serialize();
    let expected: Vec<u8> = vec![
        5, 0, 0, 0, 0, 0, 0, 0, 0xde, 0xad, 0xbe, 0xef, 0x01, 3, 0, 0, 0, 0, 0, 0, 0, 7, 8, 9,
    ];
    assert_eq!(bytes, expected);
}

#[test]
fn serialize_writes_long_lengths_little_endian() {
    let bundle = Bundle { ciphertext: vec![0xaa; 0x0102], enc_key: vec![] };
    let bytes = bundle.serialize();
    assert_eq!(&bytes[0..8], &[0x02, 0x01, 0, 0, 0, 0, 0, 0]);
    assert_eq!(bytes.len(), 8 + 0x0102 + 8);
    assert_eq!(&bytes[8 + 0x0102..], &[0u8; 8]);
}

#[test]
fn serialize_then_deserialize_is_byte_exact() {
    let bundle = sample();
    let back = Bundle::deserialize(&bundle.serialize()).unwrap();
    assert_eq!(back.ciphertext, bundle.ciphertext);
    assert_eq!(back.enc_key, bundle.enc_key);
}

#[test]
fn round_trip_of_empty_fields() {
    let bundle = Bundle { ciphertext: vec![], enc_key: vec![] };
    let bytes = bundle.serialize();
    assert_eq!(bytes, vec![0u8; 16]);
    let back = Bundle::deserialize(&bytes).unwrap();
    assert!(back.ciphertext.is_empty());
    assert!(back.enc_key.is_empty());
}

#[test]
fn round_trip_of_every_byte_value() {
    let all: Vec<u8> = (0..=255u8).collect();
    let bundle = Bundle { ciphertext: all.clone(), enc_key: all.iter().rev().cloned().collect() };
    let back = Bundle::deserialize(&bundle.serialize()).unwrap();
    assert_eq!(back.ciphertext, bundle.ciphertext);
    assert_eq!(back.enc_key, bundle.enc_key);
}

#[test]
fn serialize_agrees_with_bincode() {
    let bundle = sample();
    let theirs = bincode::serialize(&(&bundle.ciphertext, &bundle.enc_key)).unwrap();
    assert_eq!(bundle.serialize(), theirs);
}

#[test]
fn deserialize_reads_what_bincode_wrote() {
    let ciphertext: Vec<u8> = (0..200u8).collect();
    let enc_key: Vec<u8> = vec![0x55; 256];
    let theirs = bincode::serialize(&(&ciphertext, &enc_key)).unwrap();
    let bundle = Bundle::deserialize(&theirs).unwrap();
    assert_eq!(bundle.ciphertext, ciphertext);
    assert_eq!(bundle.enc_key, enc_key);
}

#[test]
fn deserialize_ignores_what_follows_the_bundle() {
    let mut bytes = sample().serialize();
    bytes.extend_from_slice(&[1, 2, 3, 4]);
    let back = Bundle::deserialize(&bytes).unwrap();
    assert_eq!(back.ciphertext, sample().ciphertext);
    assert_eq!(back.enc_key, sample().enc_key);
    let theirs: (Vec<u8>, Vec<u8>) = bincode::deserialize(&bytes).unwrap();
    assert_eq!(theirs.0, back.ciphertext);
    assert_eq!(theirs.1, back.enc_key);
}

#[test]
fn deserialize_rejects_empty_input() {
    assert_eq!(
        Bundle::deserialize(&[]).unwrap_err(),
        FormatError::TruncatedLength(BundleField::Ciphertext)
    );
}

#[test]
fn deserialize_rejects_a_short_first_length() {
    assert_eq!(
        Bundle::deserialize(&[5, 0, 0, 0, 0, 0, 0]).unwrap_err(),
        FormatError::TruncatedLength(BundleField::Ciphertext)
    );
}

#[test]
fn deserialize_rejects_a_short_ciphertext() {
    assert_eq!(
        Bundle::deserialize(&[5, 0, 0, 0, 0, 0, 0, 0, 1, 2, 3, 4]).unwrap_err(),
        FormatError::TruncatedContents(BundleField::Ciphertext)
    );
}

#[test]
fn deserialize_rejects_a_huge_announced_length() {
    assert_eq!(
        Bundle::deserialize(&[0xff; 24]).unwrap_err(),
        FormatError::TruncatedContents(BundleField::Ciphertext)
    );
}

#[test]
fn deserialize_rejects_a_missing_key_length() {
    assert_eq!(
        Bundle::deserialize(&[1, 0, 0, 0, 0, 0, 0, 0, 9, 3, 0, 0]).unwrap_err(),
        FormatError::TruncatedLength(BundleField::WrappedKey)
    );
}

#[test]
fn deserialize_rejects_a_short_key() {
    let mut bytes = sample().serialize();
    bytes.pop();
    assert_eq!(
        Bundle::deserialize(&bytes).unwrap_err(),
        FormatError::TruncatedContents(BundleField::WrappedKey)
    );
}

#[test]
fn every_cut_of_a_bundle_is_rejected() {
    let bytes = sample().serialize();
    for cut in 0..bytes.len() {
        assert!(Bundle::deserialize(&bytes[..cut]).is_err());
    }
}
