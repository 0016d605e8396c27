//! Character-boundary helpers for byte-indexed cursor movement in UTF-8
//! text.

use vstd::prelude::*;

use vstd::string::StrSliceExecFns;
use vstd::string::StringSliceAdditionalSpecFns;
use vstd::utf8::encode_utf8_valid_utf8;
use vstd::utf8::is_char_boundary;

verus! {

/// The nearest character boundary at or before `j` (position zero if
/// there is none above it).
pub open spec fn boundary_at_or_before(bytes: Seq<u8>, j: int) -> int
    decreases j,
{
    if j <= 0 {
        0
    } else if is_char_boundary(bytes, j) {
        j
    } else {
        boundary_at_or_before(bytes, j - 1)
    }
}

/// The nearest character boundary at or after `j`, looking no further
/// than `limit`.
pub open spec fn boundary_at_or_after(bytes: Seq<u8>, j: int, limit: int) -> int
    decreases limit - j,
{
    if j >= limit {
        limit
    } else if is_char_boundary(bytes, j) {
        j
    } else {
        boundary_at_or_after(bytes, j + 1, limit)
    }
}

/// The byte index where the character before `byte_index` starts: the
/// nearest character start strictly before it, or zero.
pub fn prev_char_boundary(s: &str, byte_index: usize) -> (r: usize)
    ensures
        ({
            let n = s.spec_bytes().len() as usize;
            if byte_index == 0 || n == 0 {
                r == 0
            } else {
                r == boundary_at_or_before(
                    s.spec_bytes(),
                    if byte_index - 1 < n - 1 {
                        byte_index - 1
                    } else {
                        n - 1
                    },
                )
            }
        }),
{
    broadcast use encode_utf8_valid_utf8;

    if byte_index == 0 {
        return 0;
    }
    let n = s.len();
    if n == 0 {
        return 0;
    }
    let mut i: usize = if byte_index - 1 < n - 1 {
        byte_index - 1
    } else {
        n - 1
    };
    let ghost start = i as int;
    while i > 0 && !s.is_char_boundary(i)
        invariant
            0 <= i <= start,
            start < s.spec_bytes().len(),
            boundary_at_or_before(s.spec_bytes(), start) == boundary_at_or_before(
                s.spec_bytes(),
                i as int,
            ),
        decreases i,
    {
        i -= 1;
    }
    i
}

/// The byte index where the character after the one at `byte_index`
/// starts: the nearest character start strictly after it, or the byte
/// length of the text.
pub fn next_char_boundary(s: &str, byte_index: usize) -> (r: usize)
    ensures
        ({
            let n = s.spec_bytes().len() as usize;
            if byte_index >= n {
                r == n
            } else {
                r == boundary_at_or_after(s.spec_bytes(), byte_index + 1, n as int)
            }
        }),
{
    broadcast use encode_utf8_valid_utf8;

    let n = s.len();
    if byte_index >= n {
        return n;
    }
    let mut i: usize = byte_index + 1;
    let ghost start = i as int;
    while i < n && !s.is_char_boundary(i)
        invariant
            0 < start <= i <= n,
            boundary_at_or_after(s.spec_bytes(), start, n as int) == boundary_at_or_after(
                s.spec_bytes(),
                i as int,
                n as int,
            ),
        decreases n - i,
    {
        i += 1;
    }
    i
}

/// The text's first character, as a one-character slice (empty for empty
/// text).
pub fn first_char_as_str<'a>(s: &'a str) -> (r: &'a str)
    ensures
        s@.len() == 0 ==> r@ == Seq::<char>::empty(),
        s@.len() > 0 ==> r@ == s@.subrange(0, 1),
{
    proof {
        reveal_strlit("");
    }
    if s.is_empty() {
        ""
    } else {
        s.substring_char(0, 1)
    }
}

/// Everything after the text's first character (empty for empty text).
pub fn after_first_char<'a>(s: &'a str) -> (r: &'a str)
    ensures
        s@.len() == 0 ==> r@ == Seq::<char>::empty(),
        s@.len() > 0 ==> r@ == s@.subrange(1, s@.len() as int),
{
    proof {
        reveal_strlit("");
    }
    if s.is_empty() {
        ""
    } else {
        let n = s.unicode_len();
        s.substring_char(1, n)
    }
}

} // verus!
