//! The cryptographic hash behind the seed and the final digest, and the
//! hexadecimal form in which a digest is given out.

use vstd::prelude::*;
use vstd::utf8::encode_utf8;
use crate::grid::Grid;

verus! {

/// The SHA-256 digest of a message, 32 bytes long.
pub uninterp spec fn sha256(message: Seq<u8>) -> Seq<u8>;

/// Calls `sha2::Sha256::digest`. The contract claims that the 32 bytes
/// returned are the SHA-256 digest of `message`, which depends on nothing
/// but the bytes of `message`; it says nothing of which bytes they are.
#[verifier::external_body]
fn sha256_digest(message: &[u8]) -> (digest: [u8; 32])
    ensures
        digest@ == sha256(message@),
{
    <sha2::Sha256 as sha2::Digest>::digest(message).into()
}

/// The character for a value of four bits: `0` to `9`, then `a` to `f`.
pub open spec fn hex_digit(nibble: int) -> char {
    seq!['0', '1', '2', '3', '4', '5', '6', '7', '8', '9', 'a', 'b', 'c', 'd', 'e', 'f'][nibble]
}

/// Bytes written as lowercase hexadecimal: two characters for each byte,
/// the high four bits first.
pub open spec fn hex_lower(bytes: Seq<u8>) -> Seq<char> {
    Seq::new(
        2 * bytes.len(),
        |i: int|
            if i % 2 == 0 {
                hex_digit(bytes[i / 2] as int / 16)
            } else {
                hex_digit(bytes[i / 2] as int % 16)
            },
    )
}

/// Calls `hex::encode`. The contract claims that the string returned holds,
/// for each byte of `bytes` in order, the lowercase hexadecimal digit of its
/// high four bits and then that of its low four bits.
#[verifier::external_body]
fn hex_encode(bytes: &[u8]) -> (text: String)
    ensures
        text@ == hex_lower(bytes@),
{
    hex::encode(bytes)
}

/// The first four bytes of a digest read as one big-endian number.
pub open spec fn seed_of(digest: Seq<u8>) -> u32 {
    (digest[0] * 0x100_0000 + digest[1] * 0x1_0000 + digest[2] * 0x100 + digest[3]) as u32
}

/// The bytes that stand for a pair of credentials: the UTF-8 bytes of the
/// user name followed at once by those of the password.
pub open spec fn credential_bytes(username: Seq<char>, password: Seq<char>) -> Seq<u8> {
    encode_utf8(username) + encode_utf8(password)
}

/// The seed of a pair of credentials: the seed read off the SHA-256 digest
/// of their bytes.
pub open spec fn credential_seed(username: Seq<char>, password: Seq<char>) -> u32 {
    seed_of(sha256(credential_bytes(username, password)))
}

/// Reads the seed off a digest: its first four bytes as a big-endian
/// 32-bit number.
pub fn seed_from_digest(digest: &[u8; 32]) -> (seed: u32)
    ensures
        seed == seed_of(digest@),
{
    let b0: u32 = digest[0] as u32;
    let b1: u32 = digest[1] as u32;
    let b2: u32 = digest[2] as u32;
    let b3: u32 = digest[3] as u32;
    b0 * 0x100_0000 + b1 * 0x1_0000 + b2 * 0x100 + b3
}

/// Derives the 32-bit seed of a pair of credentials from the SHA-256 digest
/// of their bytes.
pub fn derive_seed(username: &str, password: &str) -> (seed: u32)
    ensures
        seed == credential_seed(username@, password@),
{
    let mut material: Vec<u8> = Vec::new();
    material.extend_from_slice(username.as_bytes());
    material.extend_from_slice(password.as_bytes());
    assert(material@ =~= credential_bytes(username@, password@));
    let digest = sha256_digest(material.as_slice());
    seed_from_digest(&digest)
}

/// The digest of a grid: the SHA-256 digest of its cells in row-major
/// order, one byte per cell, written as 64 lowercase hexadecimal characters.
pub fn calculate_grid_hash(grid: &Grid<u8>) -> (text: String)
    ensures
        text@ == hex_lower(sha256(grid@.cells)),
        text@.len() == 64,
{
    let digest = sha256_digest(grid.as_raw());
    hex_encode(digest.as_slice())
}

} // verus!
