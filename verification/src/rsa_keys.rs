//! Recipient keys: the JSON key document, the native key made from it, and
//! the wrapping of a symmetric key under it.
//!
//! A key document is a JSON object of strings: `kty`, which must be "RSA",
//! and the components of the key as unpadded base64url text. A public key
//! has `n` and `e`; a private key has `d`, `p`, `q`, `dmp1`, `dmq1` and `iqmp`
//! besides. Any other member is refused.

use vstd::prelude::*;
use vstd::string::StringSliceAdditionalSpecFns;
use vstd::utf8::is_ascii_chars;
use crate::text::same_text;
use crate::error::{
    DecodingError, FetchError, KeyField, KeyTypeError, ParseError, PlatformError, UnwrapError,
};
use crate::symmetric_cipher::KEY_LENGTH;

verus! {

/// The longest text that `decode` takes.
pub const MAX_ENCODED_LENGTH: usize = 0x1fff_ffff;

/// The longest byte string that `encode` takes, and the longest that
/// `decode` gives.
pub const MAX_DECODED_LENGTH: usize = 0x7f_ffff;

/// The longest input that the RSA operations take in one call.
pub const MAX_RSA_INPUT: usize = 0x7fff_ffff;

/// `data_encoding::DecodeError`: why a text does not decode. It is carried
/// through unread.
#[verifier::external_type_specification]
#[verifier::external_body]
pub struct ExDecodeError(data_encoding::DecodeError);

/// `serde_json::Error`: why a text is not the JSON that was asked for. It is
/// carried through unread.
#[verifier::external_type_specification]
#[verifier::external_body]
pub struct ExJsonError(serde_json::Error);

/// What `data_encoding::BASE64URL_NOPAD.encode` returns for `bytes`.
pub uninterp spec fn base64url_nopad_encoding(bytes: Seq<u8>) -> Seq<char>;

/// What `data_encoding::BASE64URL_NOPAD.decode` returns for the bytes of
/// `text`: the decoded bytes, or nothing where it returns an error.
pub uninterp spec fn base64url_nopad_decoding(text: Seq<char>) -> Option<Seq<u8>>;

/// What `serde_json::from_str` returns for `text` when it is asked for a
/// map from strings to strings: the members of the object by ascending name,
/// a name that stands twice with its last value; or nothing where it
/// returns an error.
pub uninterp spec fn json_string_members(text: Seq<char>) -> Option<Seq<(Seq<char>, Seq<char>)>>;

/// What `openssl::rsa::Rsa::private_decrypt` recovers from `wrapped` with
/// PKCS#1 v1.5 padding, under the private key of the given components: the
/// bytes, or nothing where it returns an error.
pub uninterp spec fn rsa_pkcs1_decryption(key: PrivateKeyView, wrapped: Seq<u8>) -> Option<Seq<u8>>;

/// Calls `data_encoding::BASE64URL_NOPAD.encode`.
///
/// Trusted: the text is a function of the bytes, and decoding it gives the
/// bytes back, as the crate documents of all its encodings. The text is
/// ASCII, one character for every six bits of the bytes. The length asked
/// for is the one below which the crate promises not to panic.
#[verifier::external_body]
fn base64url_nopad_encode(bytes: &[u8]) -> (text: String)
    requires
        bytes@.len() <= MAX_DECODED_LENGTH,
    ensures
        text@ == base64url_nopad_encoding(bytes@),
        base64url_nopad_decoding(text@) == Some(bytes@),
        is_ascii_chars(text@),
        text@.len() == encoded_length(bytes@.len()),
{
    data_encoding::BASE64URL_NOPAD.encode(bytes)
}

/// Calls `data_encoding::BASE64URL_NOPAD.decode` on the bytes of `text`.
///
/// Trusted: whether the call succeeds, and the bytes it gives, are a function
/// of the text. The length asked for is the one below which the crate
/// promises not to panic.
#[verifier::external_body]
fn base64url_nopad_decode(text: &str) -> (out: Result<Vec<u8>, data_encoding::DecodeError>)
    requires
        text.spec_bytes().len() <= MAX_ENCODED_LENGTH,
    ensures
        match out {
            Ok(bytes) => base64url_nopad_decoding(text@) == Some(bytes@),
            Err(_) => base64url_nopad_decoding(text@) is None,
        },
{
    data_encoding::BASE64URL_NOPAD.decode(text.as_bytes())
}

/// Calls `serde_json::from_str` for a `BTreeMap<String, String>` and hands
/// out the members of the map in its order.
///
/// Trusted: whether the call succeeds, and the members it gives, are a
/// function of the text.
#[verifier::external_body]
fn parse_string_members(text: &str) -> (out: Result<Vec<(String, String)>, serde_json::Error>)
    ensures
        match out {
            Ok(members) => json_string_members(text@) == Some(members_view(members@)),
            Err(_) => json_string_members(text@) is None,
        },
{
    let members: std::collections::BTreeMap<String, String> = serde_json::from_str(text)?;
    Ok(members.into_iter().collect())
}

/// The number of characters in the text of `length` bytes: one for every
/// six bits, the last one filled up.
pub open spec fn encoded_length(length: nat) -> nat {
    (8 * length + 5) / 6
}

/// The members of an object as plain text: name and value of each.
pub open spec fn members_view(members: Seq<(String, String)>) -> Seq<(Seq<char>, Seq<char>)> {
    members.map_values(|member: (String, String)| (member.0@, member.1@))
}

/// The bytes that a component's text stands for, within the lengths that
/// the library takes. Text outside ASCII stands for nothing.
pub open spec fn decoding(text: Seq<char>) -> Result<Seq<u8>, DecodingError> {
    if !is_ascii_chars(text) {
        Err(DecodingError::Invalid)
    } else if text.len() > MAX_ENCODED_LENGTH {
        Err(DecodingError::TooLong)
    } else {
        match base64url_nopad_decoding(text) {
            None => Err(DecodingError::Invalid),
            Some(bytes) => if bytes.len() > MAX_DECODED_LENGTH {
                Err(DecodingError::TooLong)
            } else {
                Ok(bytes)
            },
        }
    }
}

/// The unpadded base64url text of `x`. Decoding it gives `x` back.
pub fn encode(x: &[u8]) -> (text: String)
    requires
        x@.len() <= MAX_DECODED_LENGTH,
    ensures
        text@ == base64url_nopad_encoding(x@),
        text@.len() == encoded_length(x@.len()),
        is_ascii_chars(text@),
        decoding(text@) == Ok::<_, DecodingError>(x@),
{
    base64url_nopad_encode(x)
}

/// The bytes that the unpadded base64url text `x` stands for.
pub fn decode(x: &str) -> (bytes: Result<Vec<u8>, DecodingError>)
    ensures
        match decoding(x@) {
            Ok(decoded) => bytes matches Ok(b) && b@ == decoded,
            Err(e) => bytes == Err::<Vec<u8>, _>(e),
        },
{
    if !x.is_ascii() {
        return Err(DecodingError::Invalid);
    }
    proof {
        vstd::string::is_ascii_spec_bytes(x);
    }
    if x.as_bytes().len() > MAX_ENCODED_LENGTH {
        return Err(DecodingError::TooLong);
    }
    match base64url_nopad_decode(x) {
        Ok(bytes) => if bytes.len() > MAX_DECODED_LENGTH {
            Err(DecodingError::TooLong)
        } else {
            Ok(bytes)
        },
        Err(_) => Err(DecodingError::Invalid),
    }
}

impl KeyField {
    /// The name of the field in a key document.
    pub open spec fn name(self) -> Seq<char> {
        match self {
            KeyField::Kty => "kty"@,
            KeyField::N => "n"@,
            KeyField::E => "e"@,
            KeyField::D => "d"@,
            KeyField::P => "p"@,
            KeyField::Q => "q"@,
            KeyField::Dmp1 => "dmp1"@,
            KeyField::Dmq1 => "dmq1"@,
            KeyField::Iqmp => "iqmp"@,
        }
    }

    /// The name of the field in a key document.
    pub fn text(self) -> (text: &'static str)
        ensures
            text@ == self.name(),
    {
        match self {
            KeyField::Kty => "kty",
            KeyField::N => "n",
            KeyField::E => "e",
            KeyField::D => "d",
            KeyField::P => "p",
            KeyField::Q => "q",
            KeyField::Dmp1 => "dmp1",
            KeyField::Dmq1 => "dmq1",
            KeyField::Iqmp => "iqmp",
        }
    }
}

/// The fields of a public key document, in the order in which they are asked for.
pub open spec fn public_fields() -> Seq<KeyField> {
    seq![KeyField::Kty, KeyField::N, KeyField::E]
}

/// The fields of a private key document, in the order in which they are asked for.
pub open spec fn private_fields() -> Seq<KeyField> {
    seq![
        KeyField::Kty,
        KeyField::N,
        KeyField::E,
        KeyField::D,
        KeyField::P,
        KeyField::Q,
        KeyField::Dmp1,
        KeyField::Dmq1,
        KeyField::Iqmp,
    ]
}

/// The value of the first member called `name`, if there is one.
pub open spec fn member_value(members: Seq<(Seq<char>, Seq<char>)>, name: Seq<char>) -> Option<
    Seq<char>,
>
    decreases members.len(),
{
    if members.len() == 0 {
        None
    } else if members[0].0 == name {
        Some(members[0].1)
    } else {
        member_value(members.drop_first(), name)
    }
}

/// Whether `name` is the name of one of `fields`.
pub open spec fn names_field(fields: Seq<KeyField>, name: Seq<char>) -> bool {
    exists|i: int| 0 <= i < fields.len() && #[trigger] fields[i].name() == name
}

/// Whether some member is called as none of `fields` is.
pub open spec fn unknown_member(members: Seq<(Seq<char>, Seq<char>)>, fields: Seq<KeyField>) -> bool {
    exists|i: int| 0 <= i < members.len() && !names_field(fields, #[trigger] members[i].0)
}

/// The first of `fields` for which there is no member.
pub open spec fn first_missing(
    members: Seq<(Seq<char>, Seq<char>)>,
    fields: Seq<KeyField>,
) -> Option<KeyField>
    decreases fields.len(),
{
    if fields.len() == 0 {
        None
    } else if member_value(members, fields[0].name()) is None {
        Some(fields[0])
    } else {
        first_missing(members, fields.drop_first())
    }
}

/// The values of `fields` in a key document with the given members, in the
/// order of `fields`; or why the members are no such document.
///
/// A member that is none of the fields is refused first; then the first
/// field that has no member.
pub open spec fn document(
    members: Option<Seq<(Seq<char>, Seq<char>)>>,
    fields: Seq<KeyField>,
) -> Result<Seq<Seq<char>>, ParseError> {
    match members {
        None => Err(ParseError::Malformed),
        Some(members) => if unknown_member(members, fields) {
            Err(ParseError::UnknownField)
        } else {
            match first_missing(members, fields) {
                Some(field) => Err(ParseError::MissingField(field)),
                None => Ok(
                    Seq::new(fields.len(), |i: int| member_value(members, fields[i].name())->0),
                ),
            }
        },
    }
}

/// The texts of `values`.
pub open spec fn texts(values: Seq<String>) -> Seq<Seq<char>> {
    values.map_values(|value: String| value@)
}

/// Looks up the value of the first member called `name`.
fn find_member(members: &Vec<(String, String)>, name: &str) -> (found: Option<String>)
    ensures
        match member_value(members_view(members@), name@) {
            Some(value) => found matches Some(text) && text@ == value,
            None => found is None,
        },
{
    let ghost all = members_view(members@);
    assert(all.skip(0) =~= all);
    let mut i: usize = 0;
    while i < members.len()
        invariant
            i <= members.len(),
            all == members_view(members@),
            member_value(all, name@) == member_value(all.skip(i as int), name@),
        decreases members.len() - i,
    {
        assert(all.skip(i as int)[0] == all[i as int]);
        assert(all.skip(i as int).drop_first() =~= all.skip(i + 1));
        if same_text(members[i].0.as_str(), name) {
            return Some(members[i].1.clone());
        }
        i += 1;
    }
    None
}

/// Decides whether `name` is the name of one of `fields`.
fn is_field_name(fields: &Vec<KeyField>, name: &str) -> (known: bool)
    ensures
        known == names_field(fields@, name@),
{
    let mut i: usize = 0;
    while i < fields.len()
        invariant
            i <= fields.len(),
            forall|j: int| 0 <= j < i ==> fields@[j].name() != name@,
        decreases fields.len() - i,
    {
        if same_text(fields[i].text(), name) {
            return true;
        }
        i += 1;
    }
    false
}

/// Reads the values of `fields` out of the members of a key document.
pub fn read_document(members: &Vec<(String, String)>, fields: &Vec<KeyField>) -> (read: Result<
    Vec<String>,
    ParseError,
>)
    ensures
        match document(Some(members_view(members@)), fields@) {
            Ok(values) => read matches Ok(found) && texts(found@) == values,
            Err(e) => read == Err::<Vec<String>, _>(e),
        },
{
    let ghost all = members_view(members@);
    let mut i: usize = 0;
    while i < members.len()
        invariant
            i <= members.len(),
            all == members_view(members@),
            forall|j: int| 0 <= j < i ==> names_field(fields@, #[trigger] all[j].0),
        decreases members.len() - i,
    {
        assert(all[i as int].0 == members@[i as int].0@);
        if !is_field_name(fields, members[i].0.as_str()) {
            assert(!names_field(fields@, all[i as int].0));
            return Err(ParseError::UnknownField);
        }
        i += 1;
    }
    let mut values: Vec<String> = Vec::new();
    assert(fields@.skip(0) =~= fields@);
    let mut k: usize = 0;
    while k < fields.len()
        invariant
            k <= fields.len(),
            all == members_view(members@),
            !unknown_member(all, fields@),
            values@.len() == k,
            first_missing(all, fields@) == first_missing(all, fields@.skip(k as int)),
            forall|j: int|
                0 <= j < k ==> member_value(all, fields@[j].name()) == Some(
                    (#[trigger] values@[j])@,
                ),
        decreases fields.len() - k,
    {
        assert(fields@.skip(k as int)[0] == fields@[k as int]);
        assert(fields@.skip(k as int).drop_first() =~= fields@.skip(k + 1));
        match find_member(members, fields[k].text()) {
            Some(value) => {
                values.push(value);
            },
            None => {
                return Err(ParseError::MissingField(fields[k]));
            },
        }
        k += 1;
    }
    assert(texts(values@) =~= Seq::new(
        fields@.len(),
        |i: int| member_value(all, fields@[i].name())->0,
    ));
    Ok(values)
}

/// A public key document: the key type and the two components, as text.
#[derive(Debug)]
pub struct RsaPubkey {
    kty: String,
    n: String,
    e: String,
}

/// A public key document as plain text.
pub struct RsaPubkeyView {
    pub kty: Seq<char>,
    pub n: Seq<char>,
    pub e: Seq<char>,
}

impl View for RsaPubkey {
    type V = RsaPubkeyView;

    closed spec fn view(&self) -> RsaPubkeyView {
        RsaPubkeyView { kty: self.kty@, n: self.n@, e: self.e@ }
    }
}

/// A native public key: modulus and public exponent, big-endian.
#[derive(Debug)]
pub struct PublicKey {
    n: Vec<u8>,
    e: Vec<u8>,
}

/// A native public key as plain bytes.
pub struct PublicKeyView {
    pub n: Seq<u8>,
    pub e: Seq<u8>,
}

impl View for PublicKey {
    type V = PublicKeyView;

    closed spec fn view(&self) -> PublicKeyView {
        PublicKeyView { n: self.n@, e: self.e@ }
    }
}

/// A private key document: the key type and the eight components, as text.
#[derive(Debug)]
pub struct RsaPrivateKey {
    kty: String,
    n: String,
    e: String,
    d: String,
    p: String,
    q: String,
    dmp1: String,
    dmq1: String,
    iqmp: String,
}

/// A private key document as plain text.
pub struct RsaPrivateKeyView {
    pub kty: Seq<char>,
    pub n: Seq<char>,
    pub e: Seq<char>,
    pub d: Seq<char>,
    pub p: Seq<char>,
    pub q: Seq<char>,
    pub dmp1: Seq<char>,
    pub dmq1: Seq<char>,
    pub iqmp: Seq<char>,
}

impl View for RsaPrivateKey {
    type V = RsaPrivateKeyView;

    closed spec fn view(&self) -> RsaPrivateKeyView {
        RsaPrivateKeyView {
            kty: self.kty@,
            n: self.n@,
            e: self.e@,
            d: self.d@,
            p: self.p@,
            q: self.q@,
            dmp1: self.dmp1@,
            dmq1: self.dmq1@,
            iqmp: self.iqmp@,
        }
    }
}

/// A native private key: its eight components, big-endian.
#[derive(Debug)]
pub struct PrivateKey {
    n: Vec<u8>,
    e: Vec<u8>,
    d: Vec<u8>,
    p: Vec<u8>,
    q: Vec<u8>,
    dmp1: Vec<u8>,
    dmq1: Vec<u8>,
    iqmp: Vec<u8>,
}

/// The eight components of a private key, big-endian, as they come from
/// elsewhere.
#[derive(Debug)]
pub struct PrivateComponents {
    pub n: Vec<u8>,
    pub e: Vec<u8>,
    pub d: Vec<u8>,
    pub p: Vec<u8>,
    pub q: Vec<u8>,
    pub dmp1: Vec<u8>,
    pub dmq1: Vec<u8>,
    pub iqmp: Vec<u8>,
}

impl View for PrivateComponents {
    type V = PrivateKeyView;

    open spec fn view(&self) -> PrivateKeyView {
        PrivateKeyView {
            n: self.n@,
            e: self.e@,
            d: self.d@,
            p: self.p@,
            q: self.q@,
            dmp1: self.dmp1@,
            dmq1: self.dmq1@,
            iqmp: self.iqmp@,
        }
    }
}

impl PrivateComponents {
    /// Whether no component is longer than the library takes.
    pub open spec fn within_limits(&self) -> bool {
        &&& self.n@.len() <= MAX_DECODED_LENGTH
        &&& self.e@.len() <= MAX_DECODED_LENGTH
        &&& self.d@.len() <= MAX_DECODED_LENGTH
        &&& self.p@.len() <= MAX_DECODED_LENGTH
        &&& self.q@.len() <= MAX_DECODED_LENGTH
        &&& self.dmp1@.len() <= MAX_DECODED_LENGTH
        &&& self.dmq1@.len() <= MAX_DECODED_LENGTH
        &&& self.iqmp@.len() <= MAX_DECODED_LENGTH
    }
}

/// A native private key as plain bytes.
pub struct PrivateKeyView {
    pub n: Seq<u8>,
    pub e: Seq<u8>,
    pub d: Seq<u8>,
    pub p: Seq<u8>,
    pub q: Seq<u8>,
    pub dmp1: Seq<u8>,
    pub dmq1: Seq<u8>,
    pub iqmp: Seq<u8>,
}

impl View for PrivateKey {
    type V = PrivateKeyView;

    closed spec fn view(&self) -> PrivateKeyView {
        PrivateKeyView {
            n: self.n@,
            e: self.e@,
            d: self.d@,
            p: self.p@,
            q: self.q@,
            dmp1: self.dmp1@,
            dmq1: self.dmq1@,
            iqmp: self.iqmp@,
        }
    }
}

/// Calls `openssl::rsa::Rsa::public_encrypt` with `Padding::PKCS1`, on the key
/// that `Rsa::from_public_components` makes of the two numbers that
/// `BigNum::from_slice` reads, into a buffer of `Rsa::size` bytes.
///
/// Trusted: the buffer comes back whole, so the result is as long as the
/// modulus, counted without its leading zero bytes. The padding is random:
/// nothing else is claimed of the bytes. Beyond the lengths asked for the
/// calls panic: no number and no input may be longer than `i32::MAX` bytes.
#[verifier::external_body]
fn rsa_public_encrypt(key: &PublicKey, from: &[u8]) -> (out: Result<
    Vec<u8>,
    openssl::error::ErrorStack,
>)
    requires
        key@.n.len() <= MAX_DECODED_LENGTH,
        key@.e.len() <= MAX_DECODED_LENGTH,
        from@.len() <= MAX_RSA_INPUT,
    ensures
        out matches Ok(wrapped) ==> wrapped@.len() == significant(key@.n),
{
    let n = openssl::bn::BigNum::from_slice(&key.n)?;
    let e = openssl::bn::BigNum::from_slice(&key.e)?;
    let rsa = openssl::rsa::Rsa::from_public_components(n, e)?;
    let mut to = vec![0u8; rsa.size() as usize];
    rsa.public_encrypt(from, &mut to, openssl::rsa::Padding::PKCS1)?;
    Ok(to)
}

/// Calls `openssl::rsa::Rsa::private_decrypt` with `Padding::PKCS1`, on the
/// key that `Rsa::from_private_components` makes of the eight numbers that
/// `BigNum::from_slice` reads, and hands out the bytes that were recovered.
///
/// Trusted: whether the call succeeds, and the bytes that come back, are a
/// function of the key's components and of the wrapped bytes. Beyond the
/// lengths asked for the calls panic: no number and no input may be longer
/// than `i32::MAX` bytes.
#[verifier::external_body]
fn rsa_private_decrypt(key: &PrivateKey, from: &[u8]) -> (out: Result<
    Vec<u8>,
    openssl::error::ErrorStack,
>)
    requires
        key.within_limits(),
        from@.len() <= MAX_RSA_INPUT,
    ensures
        match out {
            Ok(recovered) => rsa_pkcs1_decryption(key@, from@) == Some(recovered@),
            Err(_) => rsa_pkcs1_decryption(key@, from@) is None,
        },
{
    let rsa = openssl::rsa::Rsa::from_private_components(
        openssl::bn::BigNum::from_slice(&key.n)?,
        openssl::bn::BigNum::from_slice(&key.e)?,
        openssl::bn::BigNum::from_slice(&key.d)?,
        openssl::bn::BigNum::from_slice(&key.p)?,
        openssl::bn::BigNum::from_slice(&key.q)?,
        openssl::bn::BigNum::from_slice(&key.dmp1)?,
        openssl::bn::BigNum::from_slice(&key.dmq1)?,
        openssl::bn::BigNum::from_slice(&key.iqmp)?,
    )?;
    let mut to = vec![0u8; rsa.size() as usize];
    let length = rsa.private_decrypt(from, &mut to, openssl::rsa::Padding::PKCS1)?;
    to.truncate(length);
    Ok(to)
}

/// The number of bytes of a big-endian number, counted without its leading
/// zero bytes.
pub open spec fn significant(bytes: Seq<u8>) -> nat
    decreases bytes.len(),
{
    if bytes.len() == 0 {
        0
    } else if bytes[0] != 0 {
        bytes.len()
    } else {
        significant(bytes.drop_first())
    }
}

/// The bytes of the component `field`, whose text is `text`.
pub open spec fn component(text: Seq<char>, field: KeyField) -> Result<Seq<u8>, KeyTypeError> {
    match decoding(text) {
        Ok(bytes) => Ok(bytes),
        Err(e) => Err(KeyTypeError::Component(field, e)),
    }
}

/// The public key document with the given members.
pub open spec fn public_document(members: Option<Seq<(Seq<char>, Seq<char>)>>) -> Result<
    RsaPubkeyView,
    ParseError,
> {
    match document(members, public_fields()) {
        Err(e) => Err(e),
        Ok(values) => Ok(RsaPubkeyView { kty: values[0], n: values[1], e: values[2] }),
    }
}

/// The private key document with the given members.
pub open spec fn private_document(members: Option<Seq<(Seq<char>, Seq<char>)>>) -> Result<
    RsaPrivateKeyView,
    ParseError,
> {
    match document(members, private_fields()) {
        Err(e) => Err(e),
        Ok(values) => Ok(
            RsaPrivateKeyView {
                kty: values[0],
                n: values[1],
                e: values[2],
                d: values[3],
                p: values[4],
                q: values[5],
                dmp1: values[6],
                dmq1: values[7],
                iqmp: values[8],
            },
        ),
    }
}

/// The native key of a public key document: the key type must be "RSA", and
/// the modulus and then the exponent must decode.
pub open spec fn public_key(document: RsaPubkeyView) -> Result<PublicKeyView, KeyTypeError> {
    if document.kty != "RSA"@ {
        Err(KeyTypeError::NotRsa)
    } else if let Err(e) = component(document.n, KeyField::N) {
        Err(e)
    } else if let Err(e) = component(document.e, KeyField::E) {
        Err(e)
    } else {
        Ok(
            PublicKeyView {
                n: component(document.n, KeyField::N)->Ok_0,
                e: component(document.e, KeyField::E)->Ok_0,
            },
        )
    }
}

/// The native key of a private key document: the key type must be "RSA",
/// and the eight components must decode, which is tried in the order `n`,
/// `e`, `d`, `p`, `q`, `dmp1`, `dmq1`, `iqmp`.
pub open spec fn private_key(document: RsaPrivateKeyView) -> Result<PrivateKeyView, KeyTypeError> {
    if document.kty != "RSA"@ {
        Err(KeyTypeError::NotRsa)
    } else if let Err(e) = component(document.n, KeyField::N) {
        Err(e)
    } else if let Err(e) = component(document.e, KeyField::E) {
        Err(e)
    } else if let Err(e) = component(document.d, KeyField::D) {
        Err(e)
    } else if let Err(e) = component(document.p, KeyField::P) {
        Err(e)
    } else if let Err(e) = component(document.q, KeyField::Q) {
        Err(e)
    } else if let Err(e) = component(document.dmp1, KeyField::Dmp1) {
        Err(e)
    } else if let Err(e) = component(document.dmq1, KeyField::Dmq1) {
        Err(e)
    } else if let Err(e) = component(document.iqmp, KeyField::Iqmp) {
        Err(e)
    } else {
        Ok(
            PrivateKeyView {
                n: component(document.n, KeyField::N)->Ok_0,
                e: component(document.e, KeyField::E)->Ok_0,
                d: component(document.d, KeyField::D)->Ok_0,
                p: component(document.p, KeyField::P)->Ok_0,
                q: component(document.q, KeyField::Q)->Ok_0,
                dmp1: component(document.dmp1, KeyField::Dmp1)->Ok_0,
                dmq1: component(document.dmq1, KeyField::Dmq1)->Ok_0,
                iqmp: component(document.iqmp, KeyField::Iqmp)->Ok_0,
            },
        )
    }
}

/// Decodes the text of the component `field`.
fn decode_component(text: &str, field: KeyField) -> (bytes: Result<Vec<u8>, KeyTypeError>)
    ensures
        match component(text@, field) {
            Ok(decoded) => bytes matches Ok(b) && b@ == decoded && b@.len()
                <= MAX_DECODED_LENGTH,
            Err(e) => bytes == Err::<Vec<u8>, _>(e),
        },
{
    match decode(text) {
        Ok(bytes) => Ok(bytes),
        Err(e) => Err(KeyTypeError::Component(field, e)),
    }
}

/// A key that is read from the text of a key document.
pub trait KeyFromString<T> {
    /// Whether `outcome` is what reading `data` gives.
    spec fn parsed(data: Seq<char>, outcome: Result<T, ParseError>) -> bool;

    /// Reads a key document. Members that the schema does not know, and
    /// members that it lacks, are refused.
    fn from_raw_string(data: &str) -> (key: Result<T, ParseError>)
        ensures
            Self::parsed(data@, key),
    ;
}

/// A key that is read from what a fetch of its location gave.
pub trait KeyFromUrl<T> {
    /// Whether `outcome` is what the fetch gives.
    spec fn fetched(response: Option<Seq<char>>, outcome: Result<T, FetchError>) -> bool;

    /// Makes a key of the text that the location gave, or reports that it
    /// gave none; a text that is no key document is reported as such.
    fn from_url(response: Option<&str>) -> (key: Result<T, FetchError>)
        ensures
            Self::fetched(
                match response {
                    Some(text) => Some(text@),
                    None => None,
                },
                key,
            ),
    ;
}

impl<T: KeyFromString<T>> KeyFromUrl<T> for T {
    open spec fn fetched(response: Option<Seq<char>>, outcome: Result<T, FetchError>) -> bool {
        match response {
            None => outcome == Err::<T, _>(FetchError::Unreachable),
            Some(text) => match outcome {
                Ok(key) => T::parsed(text, Ok(key)),
                Err(FetchError::Document(e)) => T::parsed(text, Err(e)),
                Err(FetchError::Unreachable) => false,
            },
        }
    }

    fn from_url(response: Option<&str>) -> (key: Result<T, FetchError>) {
        match response {
            None => Err(FetchError::Unreachable),
            Some(text) => match T::from_raw_string(text) {
                Ok(key) => Ok(key),
                Err(e) => Err(FetchError::Document(e)),
            },
        }
    }
}

impl RsaPubkey {
    /// A public key document of the given parts.
    pub fn from_parts(kty: String, n: String, e: String) -> (key: RsaPubkey)
        ensures
            key@ == (RsaPubkeyView { kty: kty@, n: n@, e: e@ }),
    {
        RsaPubkey { kty, n, e }
    }

    /// The key type of the document.
    pub fn kty(&self) -> (kty: &String)
        ensures
            kty@ == self@.kty,
    {
        &self.kty
    }

    /// The modulus of the document, as text.
    pub fn n(&self) -> (n: &String)
        ensures
            n@ == self@.n,
    {
        &self.n
    }

    /// The public exponent of the document, as text.
    pub fn e(&self) -> (e: &String)
        ensures
            e@ == self@.e,
    {
        &self.e
    }

    /// The public key document with the given members.
    pub fn from_members(members: &Vec<(String, String)>) -> (key: Result<RsaPubkey, ParseError>)
        ensures
            match public_document(Some(members_view(members@))) {
                Ok(document) => key matches Ok(k) && k@ == document,
                Err(e) => key == Err::<RsaPubkey, _>(e),
            },
    {
        let fields = vec![KeyField::Kty, KeyField::N, KeyField::E];
        assert(fields@ =~= public_fields());
        let mut values = match read_document(members, &fields) {
            Ok(values) => values,
            Err(e) => { return Err(e); },
        };
        let ghost all = texts(values@);
        assert(all.len() == 3 && values@.len() == all.len());
        let e = values.pop().unwrap();
        let n = values.pop().unwrap();
        let kty = values.pop().unwrap();
        assert(e@ == all[2] && n@ == all[1] && kty@ == all[0]);
        Ok(RsaPubkey { kty, n, e })
    }

    /// The native key: the modulus and the exponent that the document spells.
    pub fn into_rsa_key(self) -> (key: Result<PublicKey, KeyTypeError>)
        ensures
            match public_key(self@) {
                Ok(native) => key matches Ok(k) && k@ == native,
                Err(e) => key == Err::<PublicKey, _>(e),
            },
    {
        if !same_text(self.kty.as_str(), "RSA") {
            return Err(KeyTypeError::NotRsa);
        }
        let n = match decode_component(self.n.as_str(), KeyField::N) {
            Ok(bytes) => bytes,
            Err(e) => { return Err(e); },
        };
        let e = match decode_component(self.e.as_str(), KeyField::E) {
            Ok(bytes) => bytes,
            Err(e) => { return Err(e); },
        };
        Ok(PublicKey { n, e })
    }
}

impl KeyFromString<RsaPubkey> for RsaPubkey {
    open spec fn parsed(data: Seq<char>, outcome: Result<RsaPubkey, ParseError>) -> bool {
        match public_document(json_string_members(data)) {
            Ok(document) => outcome matches Ok(key) && key@ == document,
            Err(e) => outcome == Err::<RsaPubkey, _>(e),
        }
    }

    fn from_raw_string(data: &str) -> (key: Result<RsaPubkey, ParseError>) {
        match parse_string_members(data) {
            Ok(members) => RsaPubkey::from_members(&members),
            Err(_) => Err(ParseError::Malformed),
        }
    }
}

impl PublicKey {
    #[verifier::type_invariant]
    spec fn within_limits(self) -> bool {
        self.n@.len() <= MAX_DECODED_LENGTH && self.e@.len() <= MAX_DECODED_LENGTH
    }

    /// The native key of the given modulus and public exponent, big-endian.
    /// A component that is longer than the library takes is refused.
    pub fn from_components(n: Vec<u8>, e: Vec<u8>) -> (key: Result<PublicKey, KeyTypeError>)
        ensures
            match key {
                Ok(made) => made@ == (PublicKeyView { n: n@, e: e@ }) && n@.len()
                    <= MAX_DECODED_LENGTH && e@.len() <= MAX_DECODED_LENGTH,
                Err(refused) => refused == if n@.len() > MAX_DECODED_LENGTH {
                    KeyTypeError::Component(KeyField::N, DecodingError::TooLong)
                } else {
                    KeyTypeError::Component(KeyField::E, DecodingError::TooLong)
                } && (n@.len() > MAX_DECODED_LENGTH || e@.len() > MAX_DECODED_LENGTH),
            },
    {
        if n.len() > MAX_DECODED_LENGTH {
            Err(KeyTypeError::Component(KeyField::N, DecodingError::TooLong))
        } else if e.len() > MAX_DECODED_LENGTH {
            Err(KeyTypeError::Component(KeyField::E, DecodingError::TooLong))
        } else {
            Ok(PublicKey { n, e })
        }
    }

    /// The modulus, big-endian.
    pub fn modulus(&self) -> (n: &Vec<u8>)
        ensures
            n@ == self@.n,
    {
        &self.n
    }

    /// The public exponent, big-endian.
    pub fn exponent(&self) -> (e: &Vec<u8>)
        ensures
            e@ == self@.e,
    {
        &self.e
    }

    /// The size of the key: the number of bytes of its modulus.
    pub fn size(&self) -> (size: usize)
        ensures
            size == significant(self@.n),
    {
        let mut leading: usize = 0;
        assert(self.n@.skip(0) =~= self.n@);
        while leading < self.n.len() && self.n[leading] == 0
            invariant
                leading <= self.n.len(),
                significant(self.n@) == significant(self.n@.skip(leading as int)),
            decreases self.n.len() - leading,
        {
            assert(self.n@.skip(leading as int).drop_first() =~= self.n@.skip(leading + 1));
            leading += 1;
        }
        self.n.len() - leading
    }

    /// Wraps a symmetric key under this public key, with PKCS#1 v1.5
    /// padding. What comes back is as long as the key's modulus.
    pub fn encrypt_key(&self, symmetric_key: &[u8]) -> (wrapped: Result<Vec<u8>, PlatformError>)
        ensures
            symmetric_key@.len() > MAX_RSA_INPUT <==> wrapped == Err::<Vec<u8>, _>(
                PlatformError::PayloadTooLarge,
            ),
            wrapped matches Ok(bytes) ==> bytes@.len() == significant(self@.n),
            wrapped matches Err(e) ==> e == PlatformError::PayloadTooLarge || e
                == PlatformError::Rsa,
    {
        proof {
            use_type_invariant(self);
        }
        if symmetric_key.len() > MAX_RSA_INPUT {
            return Err(PlatformError::PayloadTooLarge);
        }
        match rsa_public_encrypt(self, symmetric_key) {
            Ok(wrapped) => Ok(wrapped),
            Err(_) => Err(PlatformError::Rsa),
        }
    }
}

impl RsaPrivateKey {
    /// The private key document with the given members.
    pub fn from_members(members: &Vec<(String, String)>) -> (key: Result<
        RsaPrivateKey,
        ParseError,
    >)
        ensures
            match private_document(Some(members_view(members@))) {
                Ok(document) => key matches Ok(k) && k@ == document,
                Err(e) => key == Err::<RsaPrivateKey, _>(e),
            },
    {
        let fields = vec![
            KeyField::Kty,
            KeyField::N,
            KeyField::E,
            KeyField::D,
            KeyField::P,
            KeyField::Q,
            KeyField::Dmp1,
            KeyField::Dmq1,
            KeyField::Iqmp,
        ];
        assert(fields@ =~= private_fields());
        let mut values = match read_document(members, &fields) {
            Ok(values) => values,
            Err(e) => { return Err(e); },
        };
        let ghost all = texts(values@);
        assert(all.len() == 9 && values@.len() == all.len());
        let iqmp = values.pop().unwrap();
        let dmq1 = values.pop().unwrap();
        let dmp1 = values.pop().unwrap();
        let q = values.pop().unwrap();
        let p = values.pop().unwrap();
        let d = values.pop().unwrap();
        let e = values.pop().unwrap();
        let n = values.pop().unwrap();
        let kty = values.pop().unwrap();
        assert(iqmp@ == all[8] && dmq1@ == all[7] && dmp1@ == all[6] && q@ == all[5]);
        assert(p@ == all[4] && d@ == all[3] && e@ == all[2] && n@ == all[1] && kty@ == all[0]);
        Ok(RsaPrivateKey { kty, n, e, d, p, q, dmp1, dmq1, iqmp })
    }

    /// The native key: the eight components that the document spells.
    pub fn into_rsa_key(self) -> (key: Result<PrivateKey, KeyTypeError>)
        ensures
            match private_key(self@) {
                Ok(native) => key matches Ok(k) && k@ == native,
                Err(e) => key == Err::<PrivateKey, _>(e),
            },
    {
        if !same_text(self.kty.as_str(), "RSA") {
            return Err(KeyTypeError::NotRsa);
        }
        let n = match decode_component(self.n.as_str(), KeyField::N) {
            Ok(bytes) => bytes,
            Err(e) => { return Err(e); },
        };
        let e = match decode_component(self.e.as_str(), KeyField::E) {
            Ok(bytes) => bytes,
            Err(e) => { return Err(e); },
        };
        let d = match decode_component(self.d.as_str(), KeyField::D) {
            Ok(bytes) => bytes,
            Err(e) => { return Err(e); },
        };
        let p = match decode_component(self.p.as_str(), KeyField::P) {
            Ok(bytes) => bytes,
            Err(e) => { return Err(e); },
        };
        let q = match decode_component(self.q.as_str(), KeyField::Q) {
            Ok(bytes) => bytes,
            Err(e) => { return Err(e); },
        };
        let dmp1 = match decode_component(self.dmp1.as_str(), KeyField::Dmp1) {
            Ok(bytes) => bytes,
            Err(e) => { return Err(e); },
        };
        let dmq1 = match decode_component(self.dmq1.as_str(), KeyField::Dmq1) {
            Ok(bytes) => bytes,
            Err(e) => { return Err(e); },
        };
        let iqmp = match decode_component(self.iqmp.as_str(), KeyField::Iqmp) {
            Ok(bytes) => bytes,
            Err(e) => { return Err(e); },
        };
        Ok(PrivateKey { n, e, d, p, q, dmp1, dmq1, iqmp })
    }
}

impl KeyFromString<RsaPrivateKey> for RsaPrivateKey {
    open spec fn parsed(data: Seq<char>, outcome: Result<RsaPrivateKey, ParseError>) -> bool {
        match private_document(json_string_members(data)) {
            Ok(document) => outcome matches Ok(key) && key@ == document,
            Err(e) => outcome == Err::<RsaPrivateKey, _>(e),
        }
    }

    fn from_raw_string(data: &str) -> (key: Result<RsaPrivateKey, ParseError>) {
        match parse_string_members(data) {
            Ok(members) => RsaPrivateKey::from_members(&members),
            Err(_) => Err(ParseError::Malformed),
        }
    }
}

/// What unwrapping gives, by what the private key recovered: a symmetric
/// key, if bytes were recovered and are of the length of one.
pub open spec fn unwrapping(recovered: Option<Seq<u8>>) -> Result<Seq<u8>, UnwrapError> {
    match recovered {
        None => Err(UnwrapError::Padding),
        Some(bytes) => if bytes.len() == KEY_LENGTH {
            Ok(bytes)
        } else {
            Err(UnwrapError::KeyLength)
        },
    }
}

/// What unwrapping `wrapped` with the private key gives: a wrapped key
/// that is too long is refused; what the private key does not open is a
/// padding error; and what it recovers must be of the length of a key.
pub open spec fn unwrapping_key(private: PrivateKeyView, wrapped: Seq<u8>) -> Result<
    Seq<u8>,
    UnwrapError,
> {
    if wrapped.len() > MAX_RSA_INPUT {
        Err(UnwrapError::TooLarge)
    } else {
        unwrapping(rsa_pkcs1_decryption(private, wrapped))
    }
}

impl PrivateKey {
    #[verifier::type_invariant]
    spec fn within_limits(self) -> bool {
        &&& self.n@.len() <= MAX_DECODED_LENGTH
        &&& self.e@.len() <= MAX_DECODED_LENGTH
        &&& self.d@.len() <= MAX_DECODED_LENGTH
        &&& self.p@.len() <= MAX_DECODED_LENGTH
        &&& self.q@.len() <= MAX_DECODED_LENGTH
        &&& self.dmp1@.len() <= MAX_DECODED_LENGTH
        &&& self.dmq1@.len() <= MAX_DECODED_LENGTH
        &&& self.iqmp@.len() <= MAX_DECODED_LENGTH
    }

    /// The native key of the given components, big-endian. A key with a
    /// component that is longer than the library takes is refused.
    pub fn from_components(components: PrivateComponents) -> (key: Option<PrivateKey>)
        ensures
            match key {
                Some(made) => made@ == components@ && components.within_limits(),
                None => !components.within_limits(),
            },
    {
        if components.n.len() > MAX_DECODED_LENGTH || components.e.len() > MAX_DECODED_LENGTH
            || components.d.len() > MAX_DECODED_LENGTH || components.p.len() > MAX_DECODED_LENGTH
            || components.q.len() > MAX_DECODED_LENGTH || components.dmp1.len()
            > MAX_DECODED_LENGTH || components.dmq1.len() > MAX_DECODED_LENGTH
            || components.iqmp.len() > MAX_DECODED_LENGTH {
            None
        } else {
            Some(
                PrivateKey {
                    n: components.n,
                    e: components.e,
                    d: components.d,
                    p: components.p,
                    q: components.q,
                    dmp1: components.dmp1,
                    dmq1: components.dmq1,
                    iqmp: components.iqmp,
                },
            )
        }
    }

    /// The symmetric key in what the private key recovered, if it recovered
    /// anything: the bytes must be of the length of a symmetric key.
    pub fn unwrapped(recovered: Result<Vec<u8>, openssl::error::ErrorStack>) -> (key: Result<
        Vec<u8>,
        UnwrapError,
    >)
        ensures
            match unwrapping(
                match recovered {
                    Ok(bytes) => Some(bytes@),
                    Err(_) => None,
                },
            ) {
                Ok(bytes) => key matches Ok(k) && k@ == bytes,
                Err(e) => key == Err::<Vec<u8>, _>(e),
            },
    {
        match recovered {
            Ok(bytes) => if bytes.len() == KEY_LENGTH {
                Ok(bytes)
            } else {
                Err(UnwrapError::KeyLength)
            },
            Err(_) => Err(UnwrapError::Padding),
        }
    }

    /// Unwraps a symmetric key with this private key.
    ///
    /// Fails if the padding is not valid under this key, which is what a
    /// key wrapped for another recipient looks like, or if what is recovered
    /// is not of the length of a symmetric key. Otherwise the key is what
    /// the private key recovers from `wrapped`.
    pub fn unwrap_key(&self, wrapped: &[u8]) -> (key: Result<Vec<u8>, UnwrapError>)
        ensures
            match unwrapping_key(self@, wrapped@) {
                Ok(recovered) => key matches Ok(bytes) && bytes@ == recovered && recovered.len()
                    == KEY_LENGTH,
                Err(e) => key == Err::<Vec<u8>, _>(e),
            },
    {
        proof {
            use_type_invariant(self);
        }
        if wrapped.len() > MAX_RSA_INPUT {
            return Err(UnwrapError::TooLarge);
        }
        PrivateKey::unwrapped(rsa_private_decrypt(self, wrapped))
    }
}

} // verus!
