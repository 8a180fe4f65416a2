//! Content hashes, by which two artifacts are compared without being kept.

use sha2::Digest;
use sha2::Sha256;
use vstd::prelude::*;
use vstd::string::*;

verus! {

/// The SHA-256 digest of a byte string, as the `sha2` crate computes it.
pub uninterp spec fn sha256(data: Seq<u8>) -> Seq<u8>;

/// Calls `sha2::Sha256::digest`, which hashes the whole of `data` in one go
/// (a fresh hasher, one `update`, `finalize`). Nothing of this is proved:
/// the digest is known to the library by the name `sha256` alone, and by its
/// length, the 32 bytes that are the output size of `Sha256`.
#[verifier::external_body]
fn sha256_digest(data: &[u8]) -> (digest: Vec<u8>)
    ensures
        digest@ == sha256(data@),
        digest@.len() == 32,
{
    Sha256::digest(data).to_vec()
}

/// The sixteen digits, in the order of their values.
pub open spec fn hex_digits() -> Seq<char> {
    "0123456789abcdef"@
}

/// The half of `byte` that the hex digit at position `half` writes: the high
/// four bits first, then the low four.
pub open spec fn nibble(byte: u8, half: int) -> int {
    if half == 0 {
        byte as int / 16
    } else {
        byte as int % 16
    }
}

/// `bytes` in lower-case hexadecimal: two digits for each byte.
pub open spec fn lower_hex(bytes: Seq<u8>) -> Seq<char> {
    Seq::new(2 * bytes.len(), |i: int| hex_digits()[nibble(bytes[i / 2], i % 2)])
}

/// Writes `bytes` in lower-case hexadecimal.
pub fn to_hex(bytes: &[u8]) -> (text: String)
    ensures
        text@ == lower_hex(bytes@),
{
    let digits = "0123456789abcdef";
    proof {
        reveal_strlit("0123456789abcdef");
    }
    assert(digits.is_ascii());
    let mut text = String::new();
    let mut i: usize = 0;
    while i < bytes.len()
        invariant
            i <= bytes.len(),
            digits@ == hex_digits(),
            digits@.len() == 16,
            digits.is_ascii(),
            text@ == lower_hex(bytes@.take(i as int)),
        decreases bytes.len() - i,
    {
        let byte = bytes[i];
        let high: usize = (byte / 16) as usize;
        let low: usize = (byte % 16) as usize;
        text.append(digits.substring_ascii(high, high + 1));
        text.append(digits.substring_ascii(low, low + 1));
        i = i + 1;
        assert(text@ =~= lower_hex(bytes@.take(i as int)));
    }
    assert(bytes@.take(i as int) =~= bytes@);
    text
}

/// The hash of a text: the SHA-256 digest of its UTF-8 bytes, in lower-case
/// hexadecimal.
pub open spec fn content_hash(text: Seq<char>) -> Seq<char> {
    lower_hex(sha256(vstd::utf8::encode_utf8(text)))
}

/// The hash of `content`: 64 hex digits.
pub fn hash_content(content: &str) -> (hash: String)
    ensures
        hash@ == content_hash(content@),
        hash@.len() == 64,
{
    let digest = sha256_digest(content.as_bytes());
    to_hex(digest.as_slice())
}

} // verus!
