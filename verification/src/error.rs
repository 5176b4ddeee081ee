//! The errors of the relay, one enumeration per kind of failure.

use vstd::prelude::*;

verus! {

/// One of the two byte fields of a bundle.
#[derive(Clone, Copy, Debug, PartialEq, Eq)]
pub enum BundleField {
    Ciphertext,
    WrappedKey,
}

/// Bytes that are not the encoding of a bundle.
#[derive(Clone, Copy, Debug, PartialEq, Eq)]
pub enum FormatError {
    /// The bytes end before the eight-byte length of the field is complete.
    TruncatedLength(BundleField),
    /// The length of the field announces more bytes than follow it.
    TruncatedContents(BundleField),
}

/// A setting that the relay cannot work with. Fatal: nothing is retried.
#[derive(Clone, Copy, Debug, PartialEq, Eq)]
pub enum ConfigError {
    /// The text does not hold the separator exactly once.
    UnexpectedSplit { pattern: char },
    /// The source is neither an absolute path nor a remote location.
    InvalidSourceSpec,
    /// A symmetric key was supplied that is not of the required length.
    KeyLength,
    /// A symmetric key of zero bytes only.
    ZeroKey,
    /// No recipient is configured.
    NoRecipients,
}

/// One of the fields of a key document.
#[derive(Clone, Copy, Debug, PartialEq, Eq)]
pub enum KeyField {
    Kty,
    N,
    E,
    D,
    P,
    Q,
    Dmp1,
    Dmq1,
    Iqmp,
}

/// A key document that does not follow the schema.
#[derive(Clone, Copy, Debug, PartialEq, Eq)]
pub enum ParseError {
    /// The text is not a JSON object whose members are all strings.
    Malformed,
    /// The object has a member that the schema does not know.
    UnknownField,
    /// The object lacks a member that the schema requires.
    MissingField(KeyField),
}

/// A text that does not stand for bytes.
#[derive(Clone, Copy, Debug, PartialEq, Eq)]
pub enum DecodingError {
    /// The text or the bytes are longer than the library takes.
    TooLong,
    /// The text is not unpadded base64url.
    Invalid,
}

/// A key document from which no native key can be made.
#[derive(Clone, Copy, Debug, PartialEq, Eq)]
pub enum KeyTypeError {
    /// The key type is not "RSA".
    NotRsa,
    /// The component does not decode.
    Component(KeyField, DecodingError),
}

/// A recipient key that could not be had.
#[derive(Clone, Copy, Debug, PartialEq, Eq)]
pub enum FetchError {
    /// The location gave no text.
    Unreachable,
    /// The location gave a text that is no key document.
    Document(ParseError),
}

/// A wrapped key that the private key does not open.
#[derive(Clone, Copy, Debug, PartialEq, Eq)]
pub enum UnwrapError {
    /// The wrapped key is longer than the cipher takes in one call.
    TooLarge,
    /// The padding is not valid under this private key.
    Padding,
    /// What was recovered is not of the length of a symmetric key.
    KeyLength,
}

/// How the background worker of a watched directory ended.
#[derive(Clone, Copy, Debug, PartialEq, Eq)]
pub enum WorkerExit {
    /// The worker panicked.
    Panicked,
    /// The worker left its loop without an error.
    Finished,
    /// The worker left its loop with an error.
    Failed,
}

/// Why a source gave no item, or did not take a confirmation.
#[derive(Clone, Copy, Debug, PartialEq, Eq)]
pub enum SourceError {
    /// The backend has not been reached yet.
    NotReady,
    /// What arrived has no name under which it could be confirmed.
    MissingName,
    /// The backend's worker has ended. Fatal: nothing is retried.
    WorkerEnded(WorkerExit),
    /// The backend could not be read.
    Unreachable,
    /// The source has failed before and yields nothing more.
    Unavailable,
    /// The id is not that of an item that was handed out and is unconfirmed.
    UnknownId,
}

/// What stands in the way of writing a bundle to its place.
#[derive(Clone, Copy, Debug, PartialEq, Eq)]
pub enum IOError {
    /// The place of the recipient's directory is taken by something else.
    NotADirectory,
    /// The place of the recipient's directory could not be inspected.
    Inspection,
}

/// The platform's cryptography did not do what was asked of it.
#[derive(Clone, Copy, Debug, PartialEq, Eq)]
pub enum PlatformError {
    /// The random source gave no bytes.
    RandomSource,
    /// The payload is longer than the cipher takes in one call.
    PayloadTooLarge,
    /// The cipher refused to encrypt.
    Cipher,
    /// The public key refused to wrap.
    Rsa,
}

/// A ciphertext that the cipher rejects: it is malformed, or its padding is
/// not valid under the key.
#[derive(Clone, Copy, Debug, PartialEq, Eq)]
pub enum IntegrityError {
    /// The ciphertext is longer than the cipher takes in one call.
    TooLarge,
    /// The cipher rejected the ciphertext.
    Rejected,
}

/// Any failure of the relay, by kind.
#[derive(Clone, Copy, Debug, PartialEq, Eq)]
pub enum RelayError {
    Config(ConfigError),
    KeyType(KeyTypeError),
    Fetch(FetchError),
    Format(FormatError),
    Integrity(IntegrityError),
    Unwrap(UnwrapError),
    Platform(PlatformError),
}

} // verus!
