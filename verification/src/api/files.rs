//! Request rules of the file endpoints.

use vstd::prelude::*;

use crate::infrastructure::digest::{is_lower_hex, is_sha256_hash};
use crate::text::chars_of;

verus! {

/// Whether a client's `base_hash` has the form of a content hash: `sha256:`
/// followed by 64 lowercase hexadecimal digits.
pub fn is_valid_sha256_hash(value: &str) -> (b: bool)
    ensures
        b == is_sha256_hash(value@),
{
    let chars = chars_of(value);
    let prefix = ['s', 'h', 'a', '2', '5', '6', ':'];
    if chars.len() != 71 {
        return false;
    }
    let mut i: usize = 0;
    while i < 7
        invariant
            i <= 7,
            chars@ == value@,
            chars@.len() == 71,
            prefix@ == seq!['s', 'h', 'a', '2', '5', '6', ':'],
            forall|k: int| 0 <= k < i ==> chars@[k] == prefix@[k],
        decreases 7 - i,
    {
        if chars[i] != prefix[i] {
            proof {
                reveal_strlit("sha256:");
                assert(chars@.take(7)[i as int] != "sha256:"@[i as int]);
            }
            return false;
        }
        i = i + 1;
    }
    proof {
        reveal_strlit("sha256:");
        assert(chars@.take(7) =~= "sha256:"@);
    }
    while i < 71
        invariant
            7 <= i <= 71,
            chars@ == value@,
            chars@.len() == 71,
            chars@.take(7) == "sha256:"@,
            forall|k: int| 7 <= k < i ==> is_lower_hex(#[trigger] chars@[k]),
        decreases 71 - i,
    {
        let c = chars[i];
        if !(('0' <= c && c <= '9') || ('a' <= c && c <= 'f')) {
            assert(!is_lower_hex(chars@[i as int]));
            return false;
        }
        i = i + 1;
    }
    true
}

/// The largest request body the file endpoints buffer: six bytes per
/// content byte (JSON escaping) plus 64 KiB, saturating at `usize::MAX`.
pub open spec fn json_body_limit_spec(maximum: u64) -> int {
    let content = if maximum <= usize::MAX { maximum as int } else { usize::MAX as int };
    let scaled = if content * 6 <= usize::MAX { content * 6 } else { usize::MAX as int };
    if scaled + 65536 <= usize::MAX {
        scaled + 65536
    } else {
        usize::MAX as int
    }
}

/// The request body limit for a configured Markdown size limit.
pub fn json_body_limit(maximum: u64) -> (limit: usize)
    ensures
        limit == json_body_limit_spec(maximum),
{
    let content: u128 = if (maximum as u128) <= (usize::MAX as u128) {
        maximum as u128
    } else {
        usize::MAX as u128
    };
    let scaled: u128 = if content * 6 <= usize::MAX as u128 {
        content * 6
    } else {
        usize::MAX as u128
    };
    if scaled + 65536 <= usize::MAX as u128 {
        (scaled + 65536) as usize
    } else {
        usize::MAX
    }
}

} // verus!
