//! SHA-256 digests and their hexadecimal form.

use sha2::Digest;
use vstd::prelude::*;

verus! {

/// `sha2`'s SHA-256 hasher.
#[verifier::external_type_specification]
#[verifier::external_body]
pub struct ExSha256(sha2::Sha256);

/// The bytes that a hasher has been fed, in order.
pub uninterp spec fn hashed_bytes(hasher: sha2::Sha256) -> Seq<u8>;

/// The SHA-256 digest of `message`, as `sha2` computes it.
pub uninterp spec fn sha256(message: Seq<u8>) -> Seq<u8>;

/// The longest message, in bytes, that SHA-256 is defined for: the hasher counts the bits of the
/// message in a `u64`.
pub const MAX_MESSAGE_LEN: u64 = 0x1fff_ffff_ffff_ffff;

/// `sha2::Sha256::new`: a hasher that has been fed nothing.
#[verifier::external_body]
pub(crate) fn new_hasher() -> (hasher: sha2::Sha256)
    ensures
        hashed_bytes(hasher) == Seq::<u8>::empty(),
{
    sha2::Sha256::new()
}

/// `sha2::Sha256::update`: feeds the hasher `data`, after what it has been fed before.
#[verifier::external_body]
pub(crate) fn feed(hasher: &mut sha2::Sha256, data: &[u8])
    requires
        hashed_bytes(*old(hasher)).len() + data@.len() <= MAX_MESSAGE_LEN,
    ensures
        hashed_bytes(*final(hasher)) == hashed_bytes(*old(hasher)) + data@,
{
    hasher.update(data)
}

/// `sha2::Sha256::finalize`: the digest of what the hasher has been fed.
#[verifier::external_body]
pub(crate) fn finish(hasher: sha2::Sha256) -> (digest: [u8; 32])
    requires
        hashed_bytes(hasher).len() <= MAX_MESSAGE_LEN,
    ensures
        digest@ == sha256(hashed_bytes(hasher)),
{
    hasher.finalize().into()
}

/// The lowercase hexadecimal digits, as ASCII, by their value.
pub const HEX_TABLE: [u8; 16] = [
    48, 49, 50, 51, 52, 53, 54, 55, 56, 57, 97, 98, 99, 100, 101, 102,
];

/// The lowercase hexadecimal digit of the value `value`.
pub open spec fn hex_digit(value: int) -> char {
    if value < 10 {
        ('0' as u8 + value) as char
    } else {
        ('a' as u8 + (value - 10)) as char
    }
}

/// `bytes` in lowercase hexadecimal: two digits for each byte, the one of the higher value first.
pub open spec fn hex(bytes: Seq<u8>) -> Seq<char> {
    Seq::new(
        2 * bytes.len(),
        |i: int|
            hex_digit(
                if i % 2 == 0 {
                    bytes[i / 2] as int / 16
                } else {
                    bytes[i / 2] as int % 16
                },
            ),
    )
}

/// The lowercase hexadecimal digit, as ASCII, of the lower half of `nibble`.
pub fn nibble_to_hex(nibble: u8) -> (digit: u8)
    ensures
        digit as char == hex_digit(nibble as int % 16),
{
    assert(nibble & 0x0f == nibble % 16) by (bit_vector);
    HEX_TABLE[(nibble & 0x0f) as usize]
}

/// `bytes` in lowercase hexadecimal.
pub fn hex_string(bytes: &[u8]) -> (text: String)
    ensures
        text@ == hex(bytes@),
{
    let mut text = String::new();
    let mut i: usize = 0;
    while i < bytes.len()
        invariant
            i <= bytes.len(),
            text@ == hex(bytes@.take(i as int)),
        decreases bytes.len() - i,
    {
        let b: u8 = bytes[i];
        assert(b >> 4 == b / 16 && b / 16 < 16) by (bit_vector);
        assert(b & 0x0f == b % 16) by (bit_vector);
        text.push(nibble_to_hex(b >> 4) as char);
        text.push(nibble_to_hex(b & 0x0f) as char);
        i = i + 1;
        assert(text@ =~= hex(bytes@.take(i as int)));
    }
    assert(bytes@.take(i as int) =~= bytes@);
    text
}

/// The SHA-256 digest of `bytes`, in lowercase hexadecimal.
#[must_use]
pub fn sha256_hex(bytes: &[u8]) -> (text: String)
    requires
        bytes@.len() <= MAX_MESSAGE_LEN,
    ensures
        text@ == hex(sha256(bytes@)),
        text@.len() == 64,
{
    let mut hasher = new_hasher();
    feed(&mut hasher, bytes);
    assert(hashed_bytes(hasher) =~= bytes@);
    hex_string(&finish(hasher))
}

} // verus!
