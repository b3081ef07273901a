//! The secret that a module's challenges share.
//!
//! A flag is drawn once per module: 32 random bytes, written as lowercase
//! hexadecimal.

use vstd::prelude::*;

verus! {

/// Number of random bytes behind a flag.
pub const FLAG_BYTES: usize = 32;

/// The sixteen digits, in order of value.
pub open spec fn hex_digits() -> Seq<char> {
    "0123456789abcdef"@
}

/// Lowercase hexadecimal of `bytes`: two digits per byte, the high half
/// first.
pub open spec fn hex_encoding(bytes: Seq<u8>) -> Seq<char> {
    Seq::new(
        2 * bytes.len(),
        |i: int|
            if i % 2 == 0 {
                hex_digits()[bytes[i / 2] as int / 16]
            } else {
                hex_digits()[bytes[i / 2] as int % 16]
            },
    )
}

/// Whether `c` is one of `0`..`9`, `a`..`f`.
pub open spec fn is_hex_digit(c: char) -> bool {
    exists|d: int| 0 <= d < 16 && hex_digits()[d] == c
}

/// Whether `s` can be a module flag: the encoding of some 32 bytes.
pub open spec fn is_flag(s: Seq<char>) -> bool {
    exists|bytes: Seq<u8>| bytes.len() == FLAG_BYTES && s == hex_encoding(bytes)
}

/// A flag is 64 characters long and holds hexadecimal digits only.
pub proof fn lemma_flag_shape(s: Seq<char>)
    requires
        is_flag(s),
    ensures
        s.len() == 64,
        forall|i: int| 0 <= i < 64 ==> is_hex_digit(#[trigger] s[i]),
{
    let bytes = choose|bytes: Seq<u8>| bytes.len() == FLAG_BYTES && s == hex_encoding(bytes);
    assert forall|i: int| 0 <= i < 64 implies is_hex_digit(#[trigger] s[i]) by {
        let b = bytes[i / 2] as int;
        if i % 2 == 0 {
            assert(0 <= b / 16 < 16);
            assert(hex_digits()[b / 16] == s[i]);
        } else {
            assert(0 <= b % 16 < 16);
            assert(hex_digits()[b % 16] == s[i]);
        }
    }
}

/// `hex::encode` on a 32-byte array. The crate walks the bytes in order and
/// emits, for each, the digit of its high four bits and then the digit of its
/// low four bits, both taken from the table `0123456789abcdef`.
#[verifier::external_body]
fn hex_encode(data: &[u8; 32]) -> (res: String)
    ensures
        res@ == hex_encoding(data@),
{
    hex::encode(data)
}

/// `rand::random` for a 32-byte array: bytes from the thread-local
/// generator. Nothing is known of them but their number.
#[verifier::external_body]
fn random_bytes() -> (res: [u8; 32]) {
    rand::random()
}

/// The flag that stands for the given bytes.
pub fn flag_from_bytes(bytes: &[u8; 32]) -> (flag: String)
    ensures
        flag@ == hex_encoding(bytes@),
        is_flag(flag@),
{
    hex_encode(bytes)
}

/// A fresh flag from 32 random bytes.
pub fn generate_flag() -> (flag: String)
    ensures
        is_flag(flag@),
{
    let bytes = random_bytes();
    flag_from_bytes(&bytes)
}

} // verus!
