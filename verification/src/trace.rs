//! Truncation of traced command text: documents logged with command events
//! are cut to a byte budget, rounded up to a character boundary so that no
//! UTF-8 sequence is ever split, with an ellipsis marking a real cut.

use vstd::prelude::*;
use vstd::utf8::*;

verus! {

/// Default byte budget for a traced command document.
pub const DEFAULT_MAX_DOCUMENT_LENGTH_BYTES: usize = 1000;

/// The first character boundary of `bytes` at or after `i`; the end of the
/// sequence is always a boundary.
pub open spec fn spec_next_boundary(bytes: Seq<u8>, i: int) -> int
    recommends
        valid_utf8(bytes),
        0 <= i <= bytes.len(),
    decreases bytes.len() - i,
    when i <= bytes.len()
{
    if i >= bytes.len() {
        bytes.len() as int
    } else if is_char_boundary(bytes, i) {
        i
    } else {
        spec_next_boundary(bytes, i + 1)
    }
}

/// What truncation leaves in place: the whole string when it fits the
/// budget; otherwise its longest prefix ending at the first character
/// boundary at or past the budget, with an ellipsis appended when that
/// prefix is a real cut.
pub open spec fn spec_truncated(s: Seq<char>, new_len: int) -> Seq<char> {
    let bytes = encode_utf8(s);
    if bytes.len() <= new_len {
        s
    } else {
        let t = spec_next_boundary(bytes, new_len);
        if t < bytes.len() {
            decode_utf8(bytes.subrange(0, t)) + "..."@
        } else {
            s
        }
    }
}

/// Truncates `s` to at most `new_len` bytes of UTF-8, rounding the cut up
/// to the next character boundary and appending `...` when anything was
/// actually removed.
pub fn truncate_on_char_boundary(s: &mut String, new_len: usize)
    ensures
        final(s)@ == spec_truncated(old(s)@, new_len as int),
{
    let ghost bytes = encode_utf8(old(s)@);
    proof {
        encode_utf8_valid_utf8(old(s)@);
        is_char_boundary_start_end_of_seq(bytes);
    }
    let len = s.as_str().as_bytes().len();
    proof {
        assert(len == bytes.len());
    }
    if len > new_len {
        let mut truncate_index: usize = new_len;
        while !s.as_str().is_char_boundary(truncate_index)
            invariant
                s@ == old(s)@,
                bytes == encode_utf8(old(s)@),
                valid_utf8(bytes),
                len == bytes.len(),
                new_len <= truncate_index <= len,
                is_char_boundary(bytes, len as int),
                spec_next_boundary(bytes, new_len as int) == spec_next_boundary(
                    bytes,
                    truncate_index as int,
                ),
            decreases len - truncate_index,
        {
            truncate_index += 1;
        }
        proof {
            assert(is_char_boundary(bytes, truncate_index as int));
            assert(spec_next_boundary(bytes, new_len as int) == truncate_index as int);
            valid_utf8_split(bytes, truncate_index as int);
        }
        let pair = s.as_str().split_at(truncate_index);
        let prefix = pair.0;
        proof {
            assert(prefix@ == decode_utf8(bytes.subrange(0, truncate_index as int))) by {
                encode_utf8_decode_utf8(prefix@);
            }
        }
        proof {
            if truncate_index == len {
                assert(bytes.subrange(0, len as int) =~= bytes);
                encode_utf8_decode_utf8(old(s)@);
                assert(prefix@ == old(s)@);
            }
        }
        let mut out = prefix.to_owned();
        if truncate_index < len {
            out.append("...");
        }
        *s = out;
    }
}

} // verus!
