//! The symmetric engine: AES-256 in CBC mode under a one-time key.
//!
//! The initialization vector is fixed to zero. That is sound only because a
//! key seals one payload: an engine is consumed by the one `encrypt` or
//! `decrypt` that it performs, and a new engine draws a new key.

use vstd::prelude::*;
use crate::error::{ConfigError, IntegrityError, PlatformError, RelayError};

verus! {

/// Length of a symmetric key in bytes.
pub const KEY_LENGTH: usize = 32;

/// Length of the initialization vector in bytes.
pub const IV_LENGTH: usize = 16;

/// The longest ciphertext that the cipher takes in one call.
pub const MAX_INPUT: usize = 0x7fff_ffef;

/// The longest plaintext that the cipher takes in one call: its ciphertext
/// is then no longer than `MAX_INPUT`.
pub const MAX_PLAINTEXT: usize = 0x7fff_ffdf;

/// `openssl::error::ErrorStack`: the error of every call into OpenSSL. It
/// is carried through unread.
#[verifier::external_type_specification]
#[verifier::external_body]
pub struct ExErrorStack(openssl::error::ErrorStack);

/// What `openssl::symm::encrypt` returns for AES-256-CBC with padding, under
/// the given key and initialization vector: the ciphertext, or nothing
/// where it returns an error.
pub uninterp spec fn aes_256_cbc_encryption(key: Seq<u8>, iv: Seq<u8>, plaintext: Seq<u8>) -> Option<Seq<u8>>;

/// What `openssl::symm::decrypt` returns for AES-256-CBC with padding, under
/// the given key and initialization vector: the plaintext, or nothing where
/// it returns an error.
pub uninterp spec fn aes_256_cbc_decryption(key: Seq<u8>, iv: Seq<u8>, ciphertext: Seq<u8>) -> Option<Seq<u8>>;

/// The length of the ciphertext of a plaintext of `length` bytes: the
/// padding fills the last block of sixteen bytes, or adds a whole block.
pub open spec fn padded_length(length: nat) -> nat {
    (length / 16 + 1) * 16
}

/// Calls `openssl::symm::encrypt` with the cipher `Cipher::aes_256_cbc()`.
///
/// Trusted: whether the call succeeds, and the bytes it gives, are a
/// function of key, initialization vector and plaintext. The ciphertext is
/// the plaintext padded to whole blocks, and `openssl::symm::decrypt` under
/// the same key and vector turns it back into the plaintext. Beyond the
/// lengths asked for the call panics.
#[verifier::external_body]
fn aes_256_cbc_encrypt(key: &[u8], iv: &[u8], plaintext: &[u8]) -> (out: Result<
    Vec<u8>,
    openssl::error::ErrorStack,
>)
    requires
        key@.len() == KEY_LENGTH,
        iv@.len() == IV_LENGTH,
        plaintext@.len() <= MAX_PLAINTEXT,
    ensures
        match out {
            Ok(ciphertext) => {
                &&& aes_256_cbc_encryption(key@, iv@, plaintext@) == Some(ciphertext@)
                &&& aes_256_cbc_decryption(key@, iv@, ciphertext@) == Some(plaintext@)
                &&& ciphertext@.len() == padded_length(plaintext@.len())
            },
            Err(_) => aes_256_cbc_encryption(key@, iv@, plaintext@) is None,
        },
{
    openssl::symm::encrypt(openssl::symm::Cipher::aes_256_cbc(), key, Some(iv), plaintext)
}

/// Calls `openssl::symm::decrypt` with the cipher `Cipher::aes_256_cbc()`.
///
/// Trusted: whether the call succeeds, and the bytes it gives, are a
/// function of key, initialization vector and ciphertext. Beyond the
/// lengths asked for the call panics.
#[verifier::external_body]
fn aes_256_cbc_decrypt(key: &[u8], iv: &[u8], ciphertext: &[u8]) -> (out: Result<
    Vec<u8>,
    openssl::error::ErrorStack,
>)
    requires
        key@.len() == KEY_LENGTH,
        iv@.len() == IV_LENGTH,
        ciphertext@.len() <= MAX_INPUT,
    ensures
        match out {
            Ok(plaintext) => aes_256_cbc_decryption(key@, iv@, ciphertext@) == Some(plaintext@),
            Err(_) => aes_256_cbc_decryption(key@, iv@, ciphertext@) is None,
        },
{
    openssl::symm::decrypt(openssl::symm::Cipher::aes_256_cbc(), key, Some(iv), ciphertext)
}

/// Fills a key with bytes from `openssl::rand::rand_bytes`.
///
/// Trusted: nothing but the length, which the type gives.
#[verifier::external_body]
fn random_key() -> (out: Result<[u8; KEY_LENGTH], openssl::error::ErrorStack>) {
    let mut key = [0u8; KEY_LENGTH];
    openssl::rand::rand_bytes(&mut key)?;
    Ok(key)
}

/// The initialization vector of every engine: sixteen zero bytes.
pub open spec fn zero_iv() -> Seq<u8> {
    Seq::new(IV_LENGTH as nat, |i: int| 0u8)
}

/// Whether every byte of `bytes` is zero.
pub open spec fn all_zero(bytes: Seq<u8>) -> bool {
    forall|i: int| 0 <= i < bytes.len() ==> bytes[i] == 0
}

/// Whether `bytes` can be the key of an engine: of the required length, and
/// not zero throughout.
pub open spec fn usable_key(bytes: Seq<u8>) -> bool {
    bytes.len() == KEY_LENGTH && !all_zero(bytes)
}

/// What encrypting `plaintext` under `key` gives: a plaintext that is too
/// long is refused; otherwise the ciphertext is the cipher's, and where the
/// cipher gives none, that is the cipher's refusal.
pub open spec fn encrypting(key: Seq<u8>, plaintext: Seq<u8>) -> Result<Seq<u8>, PlatformError> {
    if plaintext.len() > MAX_PLAINTEXT {
        Err(PlatformError::PayloadTooLarge)
    } else {
        match aes_256_cbc_encryption(key, zero_iv(), plaintext) {
            Some(ciphertext) => Ok(ciphertext),
            None => Err(PlatformError::Cipher),
        }
    }
}

/// What decrypting `ciphertext` under `key` gives: a ciphertext that is too
/// long is refused; otherwise the plaintext is the cipher's, and where the
/// cipher gives none, the ciphertext is rejected.
pub open spec fn decrypting(key: Seq<u8>, ciphertext: Seq<u8>) -> Result<Seq<u8>, IntegrityError> {
    if ciphertext.len() > MAX_INPUT {
        Err(IntegrityError::TooLarge)
    } else {
        match aes_256_cbc_decryption(key, zero_iv(), ciphertext) {
            Some(plaintext) => Ok(plaintext),
            None => Err(IntegrityError::Rejected),
        }
    }
}

/// Decides whether `bytes` holds only zero bytes.
pub fn is_all_zero(bytes: &[u8]) -> (zero: bool)
    ensures
        zero == all_zero(bytes@),
{
    let mut i: usize = 0;
    while i < bytes.len()
        invariant
            i <= bytes.len(),
            forall|j: int| 0 <= j < i ==> bytes@[j] == 0,
        decreases bytes.len() - i,
    {
        if bytes[i] != 0 {
            return false;
        }
        i += 1;
    }
    true
}

/// An engine for one payload: a key that is used once.
pub struct SymmetricCipher {
    key: [u8; KEY_LENGTH],
}

impl SymmetricCipher {
    #[verifier::type_invariant]
    spec fn sound(self) -> bool {
        usable_key(self.key@)
    }

    /// The key of the engine.
    pub closed spec fn key(&self) -> Seq<u8> {
        self.key@
    }

    /// An engine under the key `key`, which must be of the required length
    /// and must not be zero throughout.
    pub fn with_key(key: &[u8]) -> (made: Result<SymmetricCipher, ConfigError>)
        ensures
            key@.len() != KEY_LENGTH ==> made == Err::<SymmetricCipher, _>(
                ConfigError::KeyLength,
            ),
            key@.len() == KEY_LENGTH && all_zero(key@) ==> made == Err::<SymmetricCipher, _>(
                ConfigError::ZeroKey,
            ),
            usable_key(key@) ==> (made matches Ok(cipher) && cipher.key() == key@),
    {
        if key.len() != KEY_LENGTH {
            return Err(ConfigError::KeyLength);
        }
        if is_all_zero(key) {
            return Err(ConfigError::ZeroKey);
        }
        let mut own = [0u8; KEY_LENGTH];
        let mut i: usize = 0;
        while i < KEY_LENGTH
            invariant
                i <= KEY_LENGTH,
                key@.len() == KEY_LENGTH,
                forall|j: int| 0 <= j < i ==> own@[j] == key@[j],
            decreases KEY_LENGTH - i,
        {
            own[i] = key[i];
            i += 1;
        }
        assert(own@ =~= key@);
        Ok(SymmetricCipher { key: own })
    }

    /// An engine under the key that the random source gave, or why there is none.
    ///
    /// A key of zero bytes only is refused like one that a caller supplied.
    pub fn from_random(drawn: Result<[u8; KEY_LENGTH], openssl::error::ErrorStack>) -> (made: Result<
        SymmetricCipher,
        RelayError,
    >)
        ensures
            match drawn {
                Ok(key) => if all_zero(key@) {
                    made == Err::<SymmetricCipher, _>(RelayError::Config(ConfigError::ZeroKey))
                } else {
                    made matches Ok(cipher) && cipher.key() == key@
                },
                Err(_) => made == Err::<SymmetricCipher, _>(
                    RelayError::Platform(PlatformError::RandomSource),
                ),
            },
    {
        match drawn {
            Ok(key) => match SymmetricCipher::with_key(key.as_slice()) {
                Ok(cipher) => Ok(cipher),
                Err(e) => Err(RelayError::Config(e)),
            },
            Err(_) => Err(RelayError::Platform(PlatformError::RandomSource)),
        }
    }

    /// An engine under the supplied key, or under a fresh random key where
    /// none is supplied.
    ///
    /// A supplied key is refused if it is not of the required length or is
    /// zero throughout. A fresh key comes from the platform's random source;
    /// without one there is no engine.
    pub fn new(key: Option<&[u8]>) -> (made: Result<SymmetricCipher, RelayError>)
        ensures
            made matches Ok(cipher) ==> usable_key(cipher.key()),
            match key {
                Some(supplied) => {
                    &&& supplied@.len() != KEY_LENGTH ==> made == Err::<SymmetricCipher, _>(
                        RelayError::Config(ConfigError::KeyLength),
                    )
                    &&& supplied@.len() == KEY_LENGTH && all_zero(supplied@) ==> made == Err::<
                        SymmetricCipher,
                        _,
                    >(RelayError::Config(ConfigError::ZeroKey))
                    &&& usable_key(supplied@) ==> (made matches Ok(cipher) && cipher.key()
                        == supplied@)
                },
                None => made matches Err(e) ==> e == RelayError::Platform(PlatformError::RandomSource)
                    || e == RelayError::Config(ConfigError::ZeroKey),
            },
    {
        match key {
            Some(supplied) => match SymmetricCipher::with_key(supplied) {
                Ok(cipher) => Ok(cipher),
                Err(e) => Err(RelayError::Config(e)),
            },
            None => SymmetricCipher::from_random(random_key()),
        }
    }

    /// The raw key, for wrapping.
    pub fn get_key(&self) -> (key: [u8; KEY_LENGTH])
        ensures
            key@ == self.key(),
            usable_key(key@),
    {
        proof {
            use_type_invariant(self);
        }
        self.key
    }

    /// Encrypts `plaintext` under the key and the zero vector, and uses the
    /// engine up.
    ///
    /// The ciphertext is what the cipher gives for this key and plaintext.
    /// It is the plaintext padded to whole blocks, and decrypting it under
    /// the same key gives the plaintext back.
    pub fn encrypt(self, plaintext: &[u8]) -> (sealed: Result<Vec<u8>, PlatformError>)
        ensures
            match encrypting(self.key(), plaintext@) {
                Ok(ciphertext) => {
                    &&& sealed matches Ok(bytes)
                    &&& bytes@ == ciphertext
                    &&& ciphertext.len() == padded_length(plaintext@.len())
                    &&& decrypting(self.key(), ciphertext) == Ok::<_, IntegrityError>(plaintext@)
                },
                Err(e) => sealed == Err::<Vec<u8>, _>(e),
            },
    {
        proof {
            use_type_invariant(&self);
        }
        if plaintext.len() > MAX_PLAINTEXT {
            return Err(PlatformError::PayloadTooLarge);
        }
        let iv = [0u8; IV_LENGTH];
        assert(iv@ =~= zero_iv());
        match aes_256_cbc_encrypt(self.key.as_slice(), iv.as_slice(), plaintext) {
            Ok(ciphertext) => Ok(ciphertext),
            Err(_) => Err(PlatformError::Cipher),
        }
    }

    /// Decrypts `ciphertext` under the key and the zero vector, and uses the
    /// engine up.
    ///
    /// A ciphertext that the cipher does not accept, because it is malformed
    /// or its padding is not valid under the key, is an integrity error; any
    /// other ciphertext gives its plaintext.
    pub fn decrypt(self, ciphertext: &[u8]) -> (opened: Result<Vec<u8>, IntegrityError>)
        ensures
            match decrypting(self.key(), ciphertext@) {
                Ok(plaintext) => opened matches Ok(bytes) && bytes@ == plaintext,
                Err(e) => opened == Err::<Vec<u8>, _>(e),
            },
    {
        proof {
            use_type_invariant(&self);
        }
        if ciphertext.len() > MAX_INPUT {
            return Err(IntegrityError::TooLarge);
        }
        let iv = [0u8; IV_LENGTH];
        assert(iv@ =~= zero_iv());
        match aes_256_cbc_decrypt(self.key.as_slice(), iv.as_slice(), ciphertext) {
            Ok(plaintext) => Ok(plaintext),
            Err(_) => Err(IntegrityError::Rejected),
        }
    }
}

} // verus!
