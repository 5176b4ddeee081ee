//! The bundle: one wrapped symmetric key and one ciphertext, and their
//! binary encoding.
//!
//! The encoding is fixed: the ciphertext and then the wrapped key, each as
//! its length in eight little-endian bytes followed by its bytes. Whatever
//! follows the second field is ignored when a bundle is read.

use vstd::prelude::*;
use crate::error::{BundleField, FormatError, IOError};

verus! {

/// Number of bytes in which a field's length is written.
pub const LENGTH_PREFIX: usize = 8;

/// The number of values that `width` bytes can tell apart: 256 to the power `width`.
pub open spec fn capacity(width: nat) -> nat
    decreases width,
{
    if width == 0 {
        1
    } else {
        256 * capacity((width - 1) as nat)
    }
}

/// The little-endian digits of `value` in `width` bytes, least significant first.
pub open spec fn le_bytes(value: nat, width: nat) -> Seq<u8>
    decreases width,
{
    if width == 0 {
        Seq::empty()
    } else {
        seq![(value % 256) as u8] + le_bytes(value / 256, (width - 1) as nat)
    }
}

/// The number that `bytes` spell, least significant byte first.
pub open spec fn le_value(bytes: Seq<u8>) -> nat
    decreases bytes.len(),
{
    if bytes.len() == 0 {
        0
    } else {
        bytes[0] as nat + 256 * le_value(bytes.drop_first())
    }
}

/// A byte field on the wire: its length, then its bytes.
pub open spec fn field_encoding(field: Seq<u8>) -> Seq<u8> {
    le_bytes(field.len(), LENGTH_PREFIX as nat) + field
}

/// Reads one field from the front of `bytes`: the field, and the bytes after it.
pub open spec fn field_decoding(bytes: Seq<u8>, field: BundleField) -> Result<
    (Seq<u8>, Seq<u8>),
    FormatError,
> {
    if bytes.len() < LENGTH_PREFIX {
        Err(FormatError::TruncatedLength(field))
    } else {
        let length = le_value(bytes.take(LENGTH_PREFIX as int));
        if bytes.len() - LENGTH_PREFIX < length {
            Err(FormatError::TruncatedContents(field))
        } else {
            Ok(
                (
                    bytes.subrange(LENGTH_PREFIX as int, LENGTH_PREFIX + length),
                    bytes.skip(LENGTH_PREFIX + length),
                ),
            )
        }
    }
}

/// What a bundle holds, as plain sequences of bytes.
pub struct BundleView {
    pub ciphertext: Seq<u8>,
    pub enc_key: Seq<u8>,
}

/// The wire form of a bundle: the ciphertext field, then the wrapped key field.
pub open spec fn encoding(bundle: BundleView) -> Seq<u8> {
    field_encoding(bundle.ciphertext) + field_encoding(bundle.enc_key)
}

/// The bundle that `bytes` begin with, or why they hold none.
pub open spec fn decoding(bytes: Seq<u8>) -> Result<BundleView, FormatError> {
    match field_decoding(bytes, BundleField::Ciphertext) {
        Err(e) => Err(e),
        Ok((ciphertext, rest)) => match field_decoding(rest, BundleField::WrappedKey) {
            Err(e) => Err(e),
            Ok((enc_key, _)) => Ok(BundleView { ciphertext, enc_key }),
        },
    }
}

/// A ciphertext together with the symmetric key that opens it, the key
/// wrapped for one recipient. The bundle does not say for whom.
#[derive(Debug)]
pub struct Bundle {
    pub ciphertext: Vec<u8>,
    pub enc_key: Vec<u8>,
}

impl View for Bundle {
    type V = BundleView;

    open spec fn view(&self) -> BundleView {
        BundleView { ciphertext: self.ciphertext@, enc_key: self.enc_key@ }
    }
}

/// Appends the eight little-endian bytes of `length` to `out`.
fn push_length(out: &mut Vec<u8>, length: usize)
    ensures
        final(out)@ == old(out)@ + le_bytes(length as nat, LENGTH_PREFIX as nat),
{
    let mut rest: u64 = length as u64;
    let mut written: usize = 0;
    while written < LENGTH_PREFIX
        invariant
            written <= LENGTH_PREFIX,
            old(out)@ + le_bytes(length as nat, LENGTH_PREFIX as nat) == out@ + le_bytes(
                rest as nat,
                (LENGTH_PREFIX - written) as nat,
            ),
        decreases LENGTH_PREFIX - written,
    {
        let ghost before = out@;
        let digit: u8 = (rest % 256) as u8;
        out.push(digit);
        proof {
            let tail = le_bytes((rest / 256) as nat, (LENGTH_PREFIX - written - 1) as nat);
            assert(before + (seq![digit] + tail) =~= out@ + tail);
        }
        rest = rest / 256;
        written += 1;
    }
    assert(out@ + Seq::<u8>::empty() =~= out@);
}

/// Appends the bytes of `field` to `out`.
fn push_bytes(out: &mut Vec<u8>, field: &Vec<u8>)
    ensures
        final(out)@ == old(out)@ + field@,
{
    let mut copied: usize = 0;
    while copied < field.len()
        invariant
            copied <= field.len(),
            out@ == old(out)@ + field@.take(copied as int),
        decreases field.len() - copied,
    {
        out.push(field[copied]);
        assert(field@.take(copied + 1) =~= field@.take(copied as int).push(field@[copied as int]));
        copied += 1;
    }
    assert(field@.take(copied as int) =~= field@);
}

/// Reads the number that the eight bytes from `start` on spell.
fn read_length(bytes: &[u8], start: usize) -> (length: u64)
    requires
        start + LENGTH_PREFIX <= bytes@.len(),
    ensures
        length == le_value(bytes@.subrange(start as int, start + LENGTH_PREFIX)),
{
    let mut length: u64 = 0;
    let mut left: usize = LENGTH_PREFIX;
    let ghost end = start + LENGTH_PREFIX;
    while left > 0
        invariant
            left <= LENGTH_PREFIX,
            end == start + LENGTH_PREFIX,
            end <= bytes.len(),
            length == le_value(bytes@.subrange(start + left, end)),
            length < capacity((LENGTH_PREFIX - left) as nat),
        decreases left,
    {
        left -= 1;
        let digit = bytes[start + left];
        proof {
            let read = bytes@.subrange(start + left, end);
            assert(read.drop_first() =~= bytes@.subrange(start + left + 1, end));
            assert(read[0] == digit);
            reveal_with_fuel(capacity, 9);
        }
        length = length * 256 + digit as u64;
    }
    length
}

/// Reads the field whose length prefix begins at `start`: the field, and
/// where the next one begins.
fn read_field(bytes: &[u8], start: usize, which: BundleField) -> (found: Result<
    (Vec<u8>, usize),
    FormatError,
>)
    requires
        start <= bytes@.len(),
    ensures
        match field_decoding(bytes@.skip(start as int), which) {
            Ok((field, rest)) => found matches Ok((read, next)) && read@ == field && next
                <= bytes@.len() && bytes@.skip(next as int) == rest,
            Err(e) => found == Err::<(Vec<u8>, usize), _>(e),
        },
{
    let ghost tail = bytes@.skip(start as int);
    if bytes.len() - start < LENGTH_PREFIX {
        return Err(FormatError::TruncatedLength(which));
    }
    let length = read_length(bytes, start);
    assert(tail.take(LENGTH_PREFIX as int) =~= bytes@.subrange(
        start as int,
        start + LENGTH_PREFIX,
    ));
    let first = start + LENGTH_PREFIX;
    if length > (bytes.len() - first) as u64 {
        return Err(FormatError::TruncatedContents(which));
    }
    let next = first + length as usize;
    let mut field: Vec<u8> = Vec::new();
    let mut at: usize = first;
    while at < next
        invariant
            first <= at <= next <= bytes@.len(),
            field@ == bytes@.subrange(first as int, at as int),
        decreases next - at,
    {
        field.push(bytes[at]);
        assert(bytes@.subrange(first as int, at + 1) =~= bytes@.subrange(
            first as int,
            at as int,
        ).push(bytes@[at as int]));
        at += 1;
    }
    assert(tail.subrange(LENGTH_PREFIX as int, LENGTH_PREFIX + length) =~= field@);
    assert(tail.skip(LENGTH_PREFIX + length) =~= bytes@.skip(next as int));
    Ok((field, next))
}

impl Bundle {
    /// The bytes of the bundle on the wire.
    pub fn serialize(&self) -> (bytes: Vec<u8>)
        ensures
            bytes@ == encoding(self@),
    {
        let mut bytes: Vec<u8> = Vec::new();
        push_length(&mut bytes, self.ciphertext.len());
        push_bytes(&mut bytes, &self.ciphertext);
        push_length(&mut bytes, self.enc_key.len());
        push_bytes(&mut bytes, &self.enc_key);
        assert(bytes@ =~= encoding(self@));
        bytes
    }

    /// Reads the bundle that `bytes` begin with. Fails exactly when a length
    /// prefix is cut short or announces more bytes than are there.
    pub fn deserialize(bytes: &[u8]) -> (read: Result<Bundle, FormatError>)
        ensures
            match decoding(bytes@) {
                Ok(bundle) => read matches Ok(b) && b@ == bundle,
                Err(e) => read == Err::<Bundle, _>(e),
            },
    {
        assert(bytes@.skip(0) =~= bytes@);
        let (ciphertext, next) = match read_field(bytes, 0, BundleField::Ciphertext) {
            Ok(found) => found,
            Err(e) => { return Err(e); },
        };
        let (enc_key, _) = match read_field(bytes, next, BundleField::WrappedKey) {
            Ok(found) => found,
            Err(e) => { return Err(e); },
        };
        Ok(Bundle { ciphertext, enc_key })
    }
}

/// What stands at the place of a recipient's directory.
#[derive(Clone, Copy, Debug, PartialEq, Eq)]
pub enum Found {
    /// Nothing: the directory is to be made.
    Nothing,
    /// A directory.
    Directory,
    /// Something that is no directory.
    Other,
    /// The place could not be inspected.
    Unknown,
}

/// How a bundle gets to its place under the output root, in the file
/// `<recipient>/<item>`: the bytes to write, and whether the recipient's
/// directory has to be made first.
#[derive(Debug, PartialEq, Eq)]
pub struct Placement {
    pub create_directory: bool,
    pub contents: Vec<u8>,
}

/// How a bundle gets to its place, by what stands at the place of the
/// recipient's directory; or why it cannot get there.
pub open spec fn placing(bundle: BundleView, found: Found) -> Result<(bool, Seq<u8>), IOError> {
    match found {
        Found::Nothing => Ok((true, encoding(bundle))),
        Found::Directory => Ok((false, encoding(bundle))),
        Found::Other => Err(IOError::NotADirectory),
        Found::Unknown => Err(IOError::Inspection),
    }
}

impl Bundle {
    /// Decides how the bundle gets to its place. A file that is there
    /// already is written over: persisting twice is persisting once.
    pub fn placement(&self, found: Found) -> (placed: Result<Placement, IOError>)
        ensures
            match placing(self@, found) {
                Ok((create, bytes)) => placed matches Ok(p) && p.create_directory == create
                    && p.contents@ == bytes,
                Err(e) => placed == Err::<Placement, _>(e),
            },
    {
        match found {
            Found::Nothing => Ok(Placement { create_directory: true, contents: self.serialize() }),
            Found::Directory => Ok(
                Placement { create_directory: false, contents: self.serialize() },
            ),
            Found::Other => Err(IOError::NotADirectory),
            Found::Unknown => Err(IOError::Inspection),
        }
    }
}

/// `le_bytes` writes exactly `width` bytes.
proof fn lemma_le_bytes_len(value: nat, width: nat)
    ensures
        le_bytes(value, width).len() == width,
    decreases width,
{
    if width > 0 {
        lemma_le_bytes_len(value / 256, (width - 1) as nat);
    }
}

/// A number that fits in `width` bytes is read back from its digits unchanged.
proof fn lemma_le_value_of_le_bytes(value: nat, width: nat)
    requires
        value < capacity(width),
    ensures
        le_value(le_bytes(value, width)) == value,
    decreases width,
{
    if width > 0 {
        let tail = le_bytes(value / 256, (width - 1) as nat);
        let digits = le_bytes(value, width);
        lemma_le_bytes_len(value / 256, (width - 1) as nat);
        assert(digits.drop_first() =~= tail);
        lemma_le_value_of_le_bytes(value / 256, (width - 1) as nat);
    }
}

/// The capacity of a length prefix is 2 to the power 64.
proof fn lemma_prefix_capacity()
    ensures
        capacity(LENGTH_PREFIX as nat) == 0x1_0000_0000_0000_0000,
{
    reveal_with_fuel(capacity, 9);
}

/// A field is read back from its encoding, whatever follows it.
proof fn lemma_field_round_trip(field: Seq<u8>, rest: Seq<u8>, which: BundleField)
    requires
        field.len() <= u64::MAX,
    ensures
        field_decoding(field_encoding(field) + rest, which) == Ok::<_, FormatError>((field, rest)),
{
    let prefix = le_bytes(field.len(), LENGTH_PREFIX as nat);
    let bytes = field_encoding(field) + rest;
    lemma_le_bytes_len(field.len(), LENGTH_PREFIX as nat);
    lemma_prefix_capacity();
    lemma_le_value_of_le_bytes(field.len(), LENGTH_PREFIX as nat);
    assert(bytes.take(LENGTH_PREFIX as int) =~= prefix);
    assert(bytes.subrange(LENGTH_PREFIX as int, LENGTH_PREFIX + field.len()) =~= field);
    assert(bytes.skip(LENGTH_PREFIX + field.len()) =~= rest);
}

/// Writing a bundle and reading it back gives the same ciphertext and the
/// same wrapped key, byte for byte, also when other bytes follow the bundle.
pub proof fn lemma_serialize_deserialize(bundle: BundleView, trailing: Seq<u8>)
    requires
        bundle.ciphertext.len() <= u64::MAX,
        bundle.enc_key.len() <= u64::MAX,
    ensures
        decoding(encoding(bundle) + trailing) == Ok::<_, FormatError>(bundle),
        decoding(encoding(bundle)) == Ok::<_, FormatError>(bundle),
{
    let second = field_encoding(bundle.enc_key);
    lemma_field_round_trip(bundle.ciphertext, second + trailing, BundleField::Ciphertext);
    lemma_field_round_trip(bundle.enc_key, trailing, BundleField::WrappedKey);
    assert(encoding(bundle) + trailing =~= field_encoding(bundle.ciphertext) + (second
        + trailing));
    lemma_field_round_trip(bundle.ciphertext, second, BundleField::Ciphertext);
    lemma_field_round_trip(bundle.enc_key, Seq::empty(), BundleField::WrappedKey);
    assert(second + Seq::<u8>::empty() =~= second);
}

/// Bytes that hold a bundle begin with that bundle's encoding.
pub proof fn lemma_deserialize_serialize(bytes: Seq<u8>)
    requires
        decoding(bytes) is Ok,
    ensures
        encoding(decoding(bytes)->Ok_0).is_prefix_of(bytes),
{
    let (ciphertext, rest) = field_decoding(bytes, BundleField::Ciphertext)->Ok_0;
    let (enc_key, after) = field_decoding(rest, BundleField::WrappedKey)->Ok_0;
    lemma_field_is_prefix(bytes, BundleField::Ciphertext);
    lemma_field_is_prefix(rest, BundleField::WrappedKey);
    let whole = encoding(BundleView { ciphertext, enc_key });
    assert(bytes =~= field_encoding(ciphertext) + rest);
    assert(rest =~= field_encoding(enc_key) + after);
    assert(bytes =~= whole + after);
}

/// Bytes from which a field was read are that field's encoding and the rest.
proof fn lemma_field_is_prefix(bytes: Seq<u8>, which: BundleField)
    requires
        field_decoding(bytes, which) is Ok,
    ensures
        bytes == field_encoding(field_decoding(bytes, which)->Ok_0.0) + field_decoding(
            bytes,
            which,
        )->Ok_0.1,
{
    let head = bytes.take(LENGTH_PREFIX as int);
    let (field, rest) = field_decoding(bytes, which)->Ok_0;
    lemma_le_bytes_of_le_value(head);
    assert(bytes =~= head + field + rest);
}

/// Bytes are the digits of the number that they spell.
proof fn lemma_le_bytes_of_le_value(bytes: Seq<u8>)
    ensures
        le_bytes(le_value(bytes), bytes.len()) == bytes,
    decreases bytes.len(),
{
    if bytes.len() > 0 {
        let tail = bytes.drop_first();
        lemma_le_bytes_of_le_value(tail);
        let value = le_value(bytes);
        assert(value % 256 == bytes[0] as nat && value / 256 == le_value(tail)) by {
            assert(value == bytes[0] as nat + 256 * le_value(tail));
        }
        assert(le_bytes(value, bytes.len()) =~= bytes);
    } else {
        assert(le_bytes(le_value(bytes), bytes.len()) =~= bytes);
    }
}

} // verus!
