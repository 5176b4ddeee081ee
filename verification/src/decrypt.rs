//! The opening side: from the bytes of a bundle back to the payload.

use vstd::prelude::*;
use crate::bundle::{
    decoding, encoding, lemma_serialize_deserialize, placing, Bundle, BundleView, Found,
};
use crate::config::Target;
use crate::encrypt::{recipient_key, sealed_by, sealed_for, Sealed};
use crate::error::{ConfigError, RelayError, UnwrapError};
use crate::rsa_keys::{
    rsa_pkcs1_decryption, significant, unwrapping_key, PrivateKey, PrivateKeyView,
    MAX_RSA_INPUT,
};
use crate::sources::{Data, DataView};
use crate::symmetric_cipher::{all_zero, decrypting, SymmetricCipher, KEY_LENGTH};

verus! {

/// What opening a bundle with a private key gives.
///
/// The private key unwraps the symmetric key: a wrapped key that it does
/// not open, or that holds no key of the right length, is an unwrap error.
/// A key of zero bytes only is refused. The ciphertext is decrypted under
/// the key: one that the cipher rejects is an integrity error.
pub open spec fn opening(private: PrivateKeyView, bundle: BundleView) -> Result<
    Seq<u8>,
    RelayError,
> {
    match unwrapping_key(private, bundle.enc_key) {
        Err(e) => Err(RelayError::Unwrap(e)),
        Ok(key) => if all_zero(key) {
            Err(RelayError::Config(ConfigError::ZeroKey))
        } else {
            match decrypting(key, bundle.ciphertext) {
                Ok(payload) => Ok(payload),
                Err(e) => Err(RelayError::Integrity(e)),
            }
        },
    }
}

/// What handling the contents of an item gives: contents that are no
/// bundle are a format error; a bundle is opened.
pub open spec fn handling(private: PrivateKeyView, contents: Seq<u8>) -> Result<
    Seq<u8>,
    RelayError,
> {
    match decoding(contents) {
        Err(e) => Err(RelayError::Format(e)),
        Ok(bundle) => opening(private, bundle),
    }
}

/// Opens a bundle with the private key of its recipient.
///
/// A wrapped key that the private key does not open is an unwrap error:
/// the bundle was wrapped for someone else. A ciphertext that the cipher
/// rejects under the recovered key is an integrity error. Nothing is tried
/// again.
pub fn open_bundle(bundle: &Bundle, private_key: &PrivateKey) -> (payload: Result<
    Vec<u8>,
    RelayError,
>)
    ensures
        match opening(private_key@, bundle@) {
            Ok(plaintext) => payload matches Ok(bytes) && bytes@ == plaintext,
            Err(e) => payload == Err::<Vec<u8>, _>(e),
        },
{
    let key = match private_key.unwrap_key(bundle.enc_key.as_slice()) {
        Ok(key) => key,
        Err(e) => { return Err(RelayError::Unwrap(e)); },
    };
    let cipher = match SymmetricCipher::with_key(key.as_slice()) {
        Ok(cipher) => cipher,
        Err(e) => { return Err(RelayError::Config(e)); },
    };
    match cipher.decrypt(bundle.ciphertext.as_slice()) {
        Ok(plaintext) => Ok(plaintext),
        Err(e) => Err(RelayError::Integrity(e)),
    }
}

/// Opens the bundle that the item `data` holds.
///
/// Contents that are no bundle are a format error; what follows is as for
/// `open_bundle`.
pub fn handle_file(data: &Data, private_key: &PrivateKey) -> (payload: Result<Vec<u8>, RelayError>)
    ensures
        match handling(private_key@, data@.contents) {
            Ok(plaintext) => payload matches Ok(bytes) && bytes@ == plaintext,
            Err(e) => payload == Err::<Vec<u8>, _>(e),
        },
{
    let bundle = match Bundle::deserialize(data.contents.as_slice()) {
        Ok(bundle) => bundle,
        Err(e) => { return Err(RelayError::Format(e)); },
    };
    open_bundle(&bundle, private_key)
}

/// The round trip: a payload that was sealed under a key, in a bundle whose
/// wrapped key the private key opens to that key, is what opening the
/// bundle gives, also after the bundle went over the wire and whatever
/// follows it there.
pub proof fn lemma_round_trip(
    payload: Seq<u8>,
    key: Seq<u8>,
    bundle: BundleView,
    private: PrivateKeyView,
    trailing: Seq<u8>,
)
    requires
        sealed_by(bundle.ciphertext, key, payload),
        rsa_pkcs1_decryption(private, bundle.enc_key) == Some(key),
        bundle.enc_key.len() <= MAX_RSA_INPUT,
    ensures
        opening(private, bundle) == Ok::<_, RelayError>(payload),
        handling(private, encoding(bundle)) == Ok::<_, RelayError>(payload),
        handling(private, encoding(bundle) + trailing) == Ok::<_, RelayError>(payload),
{
    lemma_serialize_deserialize(bundle, trailing);
}

/// A bundle for someone else: where the private key does not open the
/// wrapped key, or recovers what is not of the length of a key, opening the
/// bundle is an unwrap error and gives no payload, whatever the ciphertext.
pub proof fn lemma_foreign_bundle(private: PrivateKeyView, bundle: BundleView)
    requires
        bundle.ciphertext.len() <= u64::MAX,
        bundle.enc_key.len() <= MAX_RSA_INPUT,
        match rsa_pkcs1_decryption(private, bundle.enc_key) {
            None => true,
            Some(recovered) => recovered.len() != KEY_LENGTH,
        },
    ensures
        opening(private, bundle) == Err::<Seq<u8>, _>(
            RelayError::Unwrap(
                if rsa_pkcs1_decryption(private, bundle.enc_key) is None {
                    UnwrapError::Padding
                } else {
                    UnwrapError::KeyLength
                },
            ),
        ),
        handling(private, encoding(bundle)) == opening(private, bundle),
{
    lemma_serialize_deserialize(bundle, Seq::empty());
}

/// A number has no more significant bytes than it has bytes.
proof fn lemma_significant_bound(bytes: Seq<u8>)
    ensures
        significant(bytes) <= bytes.len(),
    decreases bytes.len(),
{
    if bytes.len() > 0 && bytes[0] == 0 {
        lemma_significant_bound(bytes.drop_first());
    }
}

/// From the sealing side to the opening side: the bytes that are written
/// to a recipient's place for an item open to the item's payload, under a
/// private key that recovers the key under which the item was sealed.
pub proof fn lemma_persisted_bundle_opens(
    sealed: Sealed,
    target: Target,
    data: DataView,
    document: Option<Seq<char>>,
    found: Found,
    private: PrivateKeyView,
    key: Seq<u8>,
)
    requires
        sealed_for(sealed, target, data, document),
        sealed_by(sealed.bundle@.ciphertext, key, data.contents),
        rsa_pkcs1_decryption(private, sealed.bundle@.enc_key) == Some(key),
        found == Found::Nothing || found == Found::Directory,
    ensures
        placing(sealed.bundle@, found) matches Ok((create, bytes)) && create == (found
            == Found::Nothing) && handling(private, bytes) == Ok::<_, RelayError>(data.contents),
{
    let public = recipient_key(document)->Ok_0;
    lemma_significant_bound(public.n);
    lemma_round_trip(data.contents, key, sealed.bundle@, private, Seq::empty());
}

} // verus!
