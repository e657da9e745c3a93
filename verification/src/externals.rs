use vstd::prelude::*;

use sha2::Digest;

verus! {

/// The lowercase hex fingerprint that SHA-256 assigns to a byte sequence.
/// It is a function of the bytes alone; nothing else is assumed about it.
pub uninterp spec fn sha256_hex_of(bytes: Seq<u8>) -> Seq<char>;

/// A lowercase hexadecimal digit.
pub open spec fn is_lower_hex_char(c: char) -> bool {
    (('0' as u32) <= (c as u32) <= ('9' as u32)) || (('a' as u32) <= (c as u32) <= ('f' as u32))
}

/// Relies on sha2's `Sha256` (a 32-byte digest of the input bytes) and on
/// `hex::encode` (two lowercase hex digits per byte): the result is the
/// 64-char lowercase hex fingerprint of `bytes`, a function of `bytes` alone.
#[verifier::external_body]
pub(crate) fn sha256_hex(bytes: &Vec<u8>) -> (r: String)
    ensures
        r@ == sha256_hex_of(bytes@),
        r@.len() == 64,
        forall|i: int| 0 <= i < r@.len() ==> is_lower_hex_char(#[trigger] r@[i]),
{
    hex::encode(sha2::Sha256::digest(bytes.as_slice()))
}

/// Relies on `uuid::Uuid::new_v4` and its `Display` form: a random
/// version-4 UUID rendered in the hyphenated format of 36 characters.
/// The value is random; only its length is assumed.
#[verifier::external_body]
pub(crate) fn fresh_staging_name() -> (r: String)
    ensures
        r@.len() == 36,
{
    uuid::Uuid::new_v4().to_string()
}

/// Relies on `chrono::Utc::now`: the current Unix timestamp in seconds.
/// The clock decides the value; nothing is assumed of it.
#[verifier::external_body]
pub(crate) fn now_timestamp() -> i64 {
    chrono::Utc::now().timestamp()
}

/// Relies on `rand::random_range`: a uniformly drawn index below `bound`.
/// Which index comes back is random; only the bound is assumed.
#[verifier::external_body]
pub(crate) fn random_index(bound: usize) -> (r: usize)
    requires
        bound >= 1,
    ensures
        r < bound,
{
    rand::random_range(0..bound)
}

/// Relies on `String::from_utf8`: ASCII bytes decode to the string whose
/// chars carry the same codes. The fallback arm is unreachable for ASCII.
#[verifier::external_body]
pub(crate) fn ascii_to_string(bytes: Vec<u8>) -> (r: String)
    requires
        forall|i: int| 0 <= i < bytes@.len() ==> bytes@[i] < 128,
    ensures
        r@.len() == bytes@.len(),
        forall|i: int| 0 <= i < r@.len() ==> #[trigger] r@[i] == bytes@[i] as char,
{
    match String::from_utf8(bytes) {
        Ok(s) => s,
        Err(_) => String::new(),
    }
}

} // verus!
