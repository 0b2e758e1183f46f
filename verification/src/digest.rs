//! SHA-256 digests and their hexadecimal text.

use sha2::Digest;
use vstd::prelude::*;

verus! {

/// The SHA-256 digest of a byte string.
pub uninterp spec fn sha256(bytes: Seq<u8>) -> Seq<u8>;

/// `sha2::Sha256::digest`: the digest of the bytes, which is always 32 bytes
/// long and depends on them alone.
#[verifier::external_body]
pub(crate) fn sha256_digest(bytes: &[u8]) -> (r: Vec<u8>)
    ensures
        r@ == sha256(bytes@),
        r@.len() == 32,
{
    sha2::Sha256::digest(bytes).to_vec()
}

/// The lower-case hexadecimal digit of that value.
pub open spec fn hex_digit(n: int) -> char {
    if n < 10 {
        (n + 48) as char
    } else {
        (n + 87) as char
    }
}

/// Two hexadecimal digits for each byte, the high half first.
pub open spec fn hex_text(bytes: Seq<u8>) -> Seq<char> {
    Seq::new(
        2 * bytes.len(),
        |i: int|
            if i % 2 == 0 {
                hex_digit(bytes[i / 2] as int / 16)
            } else {
                hex_digit(bytes[i / 2] as int % 16)
            },
    )
}

/// `hex::encode`: two lower-case hexadecimal digits for each byte.
#[verifier::external_body]
pub(crate) fn hex_encode(bytes: &[u8]) -> (r: String)
    requires
        2 * bytes@.len() <= isize::MAX,
    ensures
        r@ == hex_text(bytes@),
{
    hex::encode(bytes)
}

/// The SHA-256 digest of a byte string in hexadecimal.
pub open spec fn sha256_text(bytes: Seq<u8>) -> Seq<char> {
    hex_text(sha256(bytes))
}

/// A text of lower-case hexadecimal digits.
pub open spec fn is_hex(s: Seq<char>) -> bool {
    forall|i: int|
        0 <= i < s.len() ==> {
            let c = #[trigger] s[i];
            '0' <= c <= '9' || 'a' <= c <= 'f'
        }
}

/// A text of that many hexadecimal digits.
pub open spec fn is_hex_of(s: Seq<char>, n: nat) -> bool {
    s.len() == n && is_hex(s)
}

/// The SHA-256 digest of a byte string, in hexadecimal: 64 digits.
pub fn sha256_hex_of(bytes: &[u8]) -> (r: String)
    ensures
        r@ == sha256_text(bytes@),
        is_hex_of(r@, 64),
{
    let d = sha256_digest(bytes);
    proof {
        hex_text_is_hex(d@);
    }
    hex_encode(d.as_slice())
}

/// Every character of a hexadecimal text is one of the sixteen digits.
pub proof fn hex_text_is_hex(bytes: Seq<u8>)
    ensures
        is_hex(hex_text(bytes)),
{
}

} // verus!
