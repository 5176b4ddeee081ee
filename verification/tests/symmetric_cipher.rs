use sealed_relay::error::{ConfigError, IntegrityError, PlatformError, RelayError};
use sealed_relay::symmetric_cipher::{
    is_all_zero, SymmetricCipher, IV_LENGTH, KEY_LENGTH, MAX_INPUT, MAX_PLAINTEXT,
};

fn fixed_key() -> Vec<u8> {
    (1..=32u8).collect()
}

fn other_key() -> Vec<u8> {
    let half = [0xff, 0xee, 0xdd, 0xcc, 0xbb, 0xaa, 0x99, 0x88, 0x77, 0x66, 0x55, 0x44, 0x33, 0x22, 0x11, 0x00];
    let mut key = half.to_vec();
    key.extend_from_slice(&half);
    key
}

fn hex(text: &str) -> Vec<u8> {
    (0..text.len() / 2).map(|i| u8::from_str_radix(&text[2 * i..2 * i + 2], 16).unwrap()).collect()
}

#[test]
fn lengths_are_those_of_aes_256_cbc() {
    assert_eq!(KEY_LENGTH, 32);
    assert_eq!(IV_LENGTH, 16);
    assert_eq!(KEY_LENGTH, openssl::symm::Cipher::aes_256_cbc().key_len());
    assert_eq!(Some(IV_LENGTH), openssl::symm::Cipher::aes_256_cbc().iv_len());
    assert_eq!(MAX_INPUT, i32::MAX as usize - 16);
    assert_eq!(MAX_PLAINTEXT, MAX_INPUT - 16);
}

#[test]
fn all_zero_is_recognised() {
    assert!(is_all_zero(&[]));
    assert!(is_all_zero(&[0; 32]));
    assert!(!is_all_zero(&[0, 0, 1, 0]));
    let mut last = [0u8; 32];
    last[31] = 1;
    assert!(!is_all_zero(&last));
}

#[test]
fn supplied_key_is_kept() {
    let cipher = SymmetricCipher::new(Some(&fixed_key())).unwrap();
    assert_eq!(cipher.get_key().to_vec(), fixed_key());
    let cipher = SymmetricCipher::with_key(&fixed_key()).unwrap();
    assert_eq!(cipher.get_key().to_vec(), fixed_key());
}

#[test]
fn short_and_long_keys_are_refused() {
    assert_eq!(
        SymmetricCipher::new(Some(&[1u8; 31])).err(),
        Some(RelayError::Config(ConfigError::KeyLength))
    );
    assert_eq!(
        SymmetricCipher::new(Some(&[1u8; 33])).err(),
        Some(RelayError::Config(ConfigError::KeyLength))
    );
    assert_eq!(SymmetricCipher::new(Some(&[])).err(), Some(RelayError::Config(ConfigError::KeyLength)));
    assert_eq!(SymmetricCipher::with_key(&[0u8; 16]).err(), Some(ConfigError::KeyLength));
}

#[test]
fn zero_key_is_refused() {
    assert_eq!(
        SymmetricCipher::new(Some(&[0u8; 32])).err(),
        Some(RelayError::Config(ConfigError::ZeroKey))
    );
    assert_eq!(SymmetricCipher::with_key(&[0u8; 32]).err(), Some(ConfigError::ZeroKey));
}

#[test]
fn generated_keys_are_fresh() {
    let first = SymmetricCipher::new(None).unwrap().get_key();
    let second = SymmetricCipher::new(None).unwrap().get_key();
    assert_eq!(first.len(), 32);
    assert_ne!(first, [0u8; 32]);
    assert_ne!(second, [0u8; 32]);
    assert_ne!(first, second);
}

#[test]
fn many_generated_keys_are_pairwise_distinct() {
    let mut seen: Vec<[u8; 32]> = Vec::new();
    for _ in 0..64 {
        let key = SymmetricCipher::new(None).unwrap().get_key();
        assert!(!seen.contains(&key));
        seen.push(key);
    }
}

#[test]
fn a_drawn_key_makes_the_engine() {
    let cipher = SymmetricCipher::from_random(Ok([7u8; 32])).unwrap();
    assert_eq!(cipher.get_key(), [7u8; 32]);
}

#[test]
fn a_drawn_zero_key_is_refused() {
    assert_eq!(
        SymmetricCipher::from_random(Ok([0u8; 32])).err(),
        Some(RelayError::Config(ConfigError::ZeroKey))
    );
}

#[test]
fn a_failed_random_source_is_reported() {
    assert_eq!(
        SymmetricCipher::from_random(Err(openssl::error::ErrorStack::get())).err(),
        Some(RelayError::Platform(PlatformError::RandomSource))
    );
}

#[test]
fn encrypt_gives_the_known_ciphertext() {
    let cipher = SymmetricCipher::new(Some(&fixed_key())).unwrap();
    assert_eq!(cipher.encrypt(b"hello world").unwrap(), hex("489d0444190fae9b1626ba14063e5500"));
}

#[test]
fn encrypt_pads_a_full_block() {
    let cipher = SymmetricCipher::new(Some(&fixed_key())).unwrap();
    assert_eq!(
        cipher.encrypt(b"0123456789abcdef").unwrap(),
        hex("d47ff3a7b0b99a10cf5ae3ef483b07528fa8472775df91819d9bdcf59abadf53")
    );
}

#[test]
fn encrypt_of_nothing_is_one_block() {
    let cipher = SymmetricCipher::new(Some(&fixed_key())).unwrap();
    assert_eq!(cipher.encrypt(b"").unwrap(), hex("d45d7c5aa26bca9d6b1d5ddbf68f9ef6"));
}

#[test]
fn encrypt_is_deterministic_for_a_fixed_key() {
    let first = SymmetricCipher::new(Some(&fixed_key())).unwrap().encrypt(b"payload").unwrap();
    let second = SymmetricCipher::new(Some(&fixed_key())).unwrap().encrypt(b"payload").unwrap();
    assert_eq!(first, second);
}

#[test]
fn decrypt_gives_the_known_plaintext() {
    let cipher = SymmetricCipher::new(Some(&fixed_key())).unwrap();
    assert_eq!(cipher.decrypt(&hex("489d0444190fae9b1626ba14063e5500")).unwrap(), b"hello world".to_vec());
}

#[test]
fn decrypt_reverses_encrypt() {
    for length in [0usize, 1, 15, 16, 17, 1000] {
        let payload: Vec<u8> = (0..length).map(|i| (i * 7 % 251) as u8).collect();
        let sealing = SymmetricCipher::new(None).unwrap();
        let key = sealing.get_key();
        let ciphertext = sealing.encrypt(&payload).unwrap();
        assert_ne!(ciphertext, payload);
        let opening = SymmetricCipher::new(Some(&key)).unwrap();
        assert_eq!(opening.decrypt(&ciphertext).unwrap(), payload);
    }
}

#[test]
fn decrypt_rejects_a_ciphertext_that_is_no_whole_block() {
    let cipher = SymmetricCipher::new(Some(&fixed_key())).unwrap();
    assert_eq!(cipher.decrypt(&[1, 2, 3]).err(), Some(IntegrityError::Rejected));
}

#[test]
fn decrypt_rejects_an_empty_ciphertext() {
    let cipher = SymmetricCipher::new(Some(&fixed_key())).unwrap();
    assert_eq!(cipher.decrypt(&[]).err(), Some(IntegrityError::Rejected));
}

#[test]
fn decrypt_under_another_key_is_rejected() {
    let cipher = SymmetricCipher::new(Some(&other_key())).unwrap();
    assert_eq!(
        cipher.decrypt(&hex("489d0444190fae9b1626ba14063e5500")).err(),
        Some(IntegrityError::Rejected)
    );
}

#[test]
fn a_payload_beyond_the_limit_is_not_encrypted() {
    let huge = vec![0u8; MAX_PLAINTEXT + 1];
    let cipher = SymmetricCipher::new(Some(&fixed_key())).unwrap();
    assert_eq!(cipher.encrypt(&huge).err(), Some(PlatformError::PayloadTooLarge));
}

#[test]
fn a_ciphertext_beyond_the_limit_is_not_decrypted() {
    let huge = vec![0u8; MAX_INPUT + 1];
    let cipher = SymmetricCipher::new(Some(&fixed_key())).unwrap();
    assert_eq!(cipher.decrypt(&huge).err(), Some(IntegrityError::TooLarge));
}

#[test]
fn the_ciphertext_is_the_plaintext_padded_to_whole_blocks() {
    for length in [0usize, 1, 15, 16, 17, 31, 32, 33, 1000] {
        let cipher = SymmetricCipher::new(Some(&fixed_key())).unwrap();
        let ciphertext = cipher.encrypt(&vec![0x5a; length]).unwrap();
        assert_eq!(ciphertext.len(), (length / 16 + 1) * 16);
    }
}

#[test]
fn decrypt_of_what_encrypt_made_is_the_payload() {
    for payload in [&b""[..], &b"hello world"[..], &[0u8; 48][..]] {
        let ciphertext = SymmetricCipher::new(Some(&fixed_key())).unwrap().encrypt(payload).unwrap();
        let opened = SymmetricCipher::new(Some(&fixed_key())).unwrap().decrypt(&ciphertext);
        assert_eq!(opened, Ok(payload.to_vec()));
    }
}
