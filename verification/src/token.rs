use vstd::prelude::*;

use crate::config::AppConfig;
use crate::externals::ascii_to_string;
use crate::externals::random_index;
use crate::strutil::contains_str;
use crate::strutil::seq_has_str;

verus! {

/// A character admissible in an admin token: an ASCII letter or digit.
pub open spec fn is_token_char(c: char) -> bool {
    (('A' as u32) <= (c as u32) <= ('Z' as u32)) || (('a' as u32) <= (c as u32) <= ('z' as u32))
        || (('0' as u32) <= (c as u32) <= ('9' as u32))
}

/// The byte for the `idx`-th character of the token alphabet: the 26
/// uppercase letters, then the 26 lowercase letters, then the 10 digits.
fn alphabet_byte(idx: usize) -> (b: u8)
    requires
        idx < 62,
    ensures
        is_token_char(b as char),
        b < 128,
{
    if idx < 26 {
        65 + (idx as u8)
    } else if idx < 52 {
        97 + (idx as u8 - 26)
    } else {
        48 + (idx as u8 - 52)
    }
}

/// Draws a fresh 32-character alphanumeric admin token, puts it into the
/// token set, and returns it. Everything but the token set is untouched;
/// the caller persists the new state.
pub fn generate_token(cfg: &mut AppConfig) -> (t: String)
    ensures
        t@.len() == 32,
        forall|i: int| 0 <= i < t@.len() ==> is_token_char(#[trigger] t@[i]),
        seq_has_str(final(cfg).tokens@, t@),
        final(cfg).tokens@ == if seq_has_str(old(cfg).tokens@, t@) {
            old(cfg).tokens@
        } else {
            old(cfg).tokens@.push(t)
        },
        final(cfg).data_dir == old(cfg).data_dir,
        final(cfg).max_size_mb == old(cfg).max_size_mb,
        final(cfg).blacklist == old(cfg).blacklist,
        final(cfg).images == old(cfg).images,
        final(cfg).thumbnail_pixels == old(cfg).thumbnail_pixels,
{
    let mut bytes: Vec<u8> = Vec::new();
    for k in 0..32usize
        invariant
            bytes@.len() == k,
            forall|j: int| 0 <= j < k ==> is_token_char(#[trigger] bytes@[j] as char),
            forall|j: int| 0 <= j < k ==> bytes@[j] < 128,
    {
        let idx = random_index(62);
        bytes.push(alphabet_byte(idx));
    }
    let t = ascii_to_string(bytes);
    if !contains_str(&cfg.tokens, &t) {
        cfg.tokens.push(t.clone());
        proof {
            assert(cfg.tokens@.last() == t);
            assert(seq_has_str(cfg.tokens@, t@));
        }
    }
    t
}

} // verus!
