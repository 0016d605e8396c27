//! Small text utilities shared by the parsers: whitespace trimming,
//! case-insensitive comparison and digit parsing.

use vstd::prelude::*;

use vstd::string::StrSliceExecFns;

verus! {

/// The characters with the Unicode white-space property, as `str::trim`
/// removes them.
pub open spec fn is_ws_char(c: char) -> bool {
    ||| c == '\u{0009}'
    ||| c == '\u{000A}'
    ||| c == '\u{000B}'
    ||| c == '\u{000C}'
    ||| c == '\u{000D}'
    ||| c == ' '
    ||| c == '\u{0085}'
    ||| c == '\u{00A0}'
    ||| c == '\u{1680}'
    ||| ('\u{2000}' <= c && c <= '\u{200A}')
    ||| c == '\u{2028}'
    ||| c == '\u{2029}'
    ||| c == '\u{202F}'
    ||| c == '\u{205F}'
    ||| c == '\u{3000}'
}

/// Whether `c` counts as white space for trimming.
pub fn is_ws(c: char) -> (r: bool)
    ensures
        r == is_ws_char(c),
{
    let v = c as u32;
    (9 <= v && v <= 13) || v == 32 || v == 0x85 || v == 0xA0 || v == 0x1680 || (0x2000 <= v && v
        <= 0x200A) || v == 0x2028 || v == 0x2029 || v == 0x202F || v == 0x205F || v == 0x3000
}

/// Length of the white-space prefix starting at `i`.
pub open spec fn ws_run_end(s: Seq<char>, i: int) -> int
    decreases s.len() - i,
{
    if i < 0 || i >= s.len() {
        s.len() as int
    } else if is_ws_char(s[i]) {
        ws_run_end(s, i + 1)
    } else {
        i
    }
}

/// Start of the white-space suffix ending at `j`.
pub open spec fn ws_run_start(s: Seq<char>, j: int) -> int
    decreases j,
{
    if j <= 0 {
        0
    } else if is_ws_char(s[j - 1]) {
        ws_run_start(s, j - 1)
    } else {
        j
    }
}

/// `s` with leading and trailing white space removed.
pub open spec fn trim_spec(s: Seq<char>) -> Seq<char> {
    let a = ws_run_end(s, 0);
    if a == s.len() {
        Seq::empty()
    } else {
        s.subrange(a, ws_run_start(s, s.len() as int))
    }
}

proof fn lemma_ws_run_end_bounds(s: Seq<char>, i: int)
    requires
        0 <= i <= s.len(),
    ensures
        i <= ws_run_end(s, i) <= s.len(),
        forall|k: int| i <= k < ws_run_end(s, i) ==> is_ws_char(#[trigger] s[k]),
        ws_run_end(s, i) < s.len() ==> !is_ws_char(s[ws_run_end(s, i)]),
    decreases s.len() - i,
{
    if i < s.len() && is_ws_char(s[i]) {
        lemma_ws_run_end_bounds(s, i + 1);
    }
}

proof fn lemma_ws_run_start_bounds(s: Seq<char>, j: int)
    requires
        0 <= j <= s.len(),
    ensures
        0 <= ws_run_start(s, j) <= j,
        forall|k: int| ws_run_start(s, j) <= k < j ==> is_ws_char(#[trigger] s[k]),
        ws_run_start(s, j) > 0 ==> !is_ws_char(s[ws_run_start(s, j) - 1]),
    decreases j,
{
    if j > 0 && is_ws_char(s[j - 1]) {
        lemma_ws_run_start_bounds(s, j - 1);
    }
}

/// `s` without leading and trailing white space, like `str::trim`.
pub fn str_trim<'a>(s: &'a str) -> (r: &'a str)
    ensures
        r@ == trim_spec(s@),
{
    let n = s.unicode_len();
    let mut a: usize = 0;
    while a < n && is_ws(s.get_char(a))
        invariant
            0 <= a <= n,
            n == s@.len(),
            ws_run_end(s@, 0) == ws_run_end(s@, a as int),
        decreases n - a,
    {
        a += 1;
    }
    if a == n {
        proof {
            reveal_strlit("");
            assert(trim_spec(s@) =~= Seq::<char>::empty());
        }
        return "";
    }
    let mut b: usize = n;
    while b > 0 && is_ws(s.get_char(b - 1))
        invariant
            0 <= b <= n,
            n == s@.len(),
            ws_run_start(s@, n as int) == ws_run_start(s@, b as int),
        decreases b,
    {
        b -= 1;
    }
    proof {
        lemma_ws_run_end_bounds(s@, 0);
        lemma_ws_run_start_bounds(s@, n as int);
        assert(a as int == ws_run_end(s@, 0));
        assert(b as int == ws_run_start(s@, n as int));
    }
    s.substring_char(a, b)
}

/// A character folded to lower case within ASCII; other characters are
/// left as they are.
pub open spec fn lower_code(c: char) -> int {
    if 'A' <= c && c <= 'Z' {
        c as u32 + 32
    } else {
        c as u32 as int
    }
}

/// Equal length and equal characters up to ASCII case.
pub open spec fn eq_ignore_ascii(a: Seq<char>, b: Seq<char>) -> bool {
    a.len() == b.len() && forall|i: int| 0 <= i < a.len() ==> lower_code(a[i]) == lower_code(#[trigger] b[i])
}

/// Whether the texts match up to ASCII case.
pub fn str_eq_ignore_ascii(a: &str, b: &str) -> (r: bool)
    ensures
        r == eq_ignore_ascii(a@, b@),
{
    let la = a.unicode_len();
    let lb = b.unicode_len();
    if la != lb {
        return false;
    }
    let mut i: usize = 0;
    while i < la
        invariant
            0 <= i <= la,
            la == a@.len(),
            la == b@.len(),
            forall|k: int| 0 <= k < i ==> lower_code(a@[k]) == lower_code(#[trigger] b@[k]),
        decreases la - i,
    {
        let ca = a.get_char(i);
        let cb = b.get_char(i);
        let va = if 'A' <= ca && ca <= 'Z' {
            ca as u32 + 32
        } else {
            ca as u32
        };
        let vb = if 'A' <= cb && cb <= 'Z' {
            cb as u32 + 32
        } else {
            cb as u32
        };
        if va != vb {
            return false;
        }
        i += 1;
    }
    true
}

/// Whether the texts hold exactly the same characters.
pub fn str_eq(a: &str, b: &str) -> (r: bool)
    ensures
        r == (a@ == b@),
{
    let la = a.unicode_len();
    let lb = b.unicode_len();
    if la != lb {
        proof {
            assert(a@.len() != b@.len());
        }
        return false;
    }
    let mut i: usize = 0;
    while i < la
        invariant
            0 <= i <= la,
            la == a@.len(),
            la == b@.len(),
            forall|k: int| 0 <= k < i ==> a@[k] == #[trigger] b@[k],
        decreases la - i,
    {
        if a.get_char(i) != b.get_char(i) {
            return false;
        }
        i += 1;
    }
    proof {
        assert(a@ =~= b@);
    }
    true
}

/// The value of a decimal digit character, if it is one.
pub open spec fn digit_val(c: char) -> Option<u32> {
    if '0' <= c && c <= '9' {
        Some((c as u32 - '0' as u32) as u32)
    } else {
        None
    }
}

/// What `str::parse::<u8>` accepts: an optional plus sign followed by
/// decimal digits whose value fits in eight bits.
pub open spec fn parse_u8_spec(s: Seq<char>) -> Option<u8> {
    let digits = if s.len() > 0 && s[0] == '+' {
        s.subrange(1, s.len() as int)
    } else {
        s
    };
    parse_u8_digits(digits)
}

/// The value of a non-empty all-digit text, if it fits in eight bits.
pub open spec fn parse_u8_digits(s: Seq<char>) -> Option<u8>
    decreases s.len(),
{
    if s.len() == 0 {
        None
    } else if s.len() == 1 {
        match digit_val(s[0]) {
            Some(v) => Some(v as u8),
            None => None,
        }
    } else {
        match (parse_u8_digits(s.drop_last()), digit_val(s.last())) {
            (Some(hi), Some(lo)) => if hi as u32 * 10 + lo <= 255 {
                Some((hi as u32 * 10 + lo) as u8)
            } else {
                None
            },
            _ => None,
        }
    }
}

/// Parses an eight-bit number as `str::parse::<u8>` would.
pub fn parse_u8(s: &str) -> (r: Option<u8>)
    ensures
        r == parse_u8_spec(s@),
{
    let n = s.unicode_len();
    let start: usize = if n > 0 && s.get_char(0) == '+' {
        1
    } else {
        0
    };
    let ghost digits = if s@.len() > 0 && s@[0] == '+' {
        s@.subrange(1, s@.len() as int)
    } else {
        s@
    };
    if start >= n {
        return None;
    }
    let mut acc: u32 = 0;
    let mut i: usize = start;
    while i < n
        invariant
            start <= i <= n,
            n == s@.len(),
            start == if s@.len() > 0 && s@[0] == '+' {
                1int
            } else {
                0int
            },
            digits == s@.subrange(start as int, n as int),
            i > start ==> parse_u8_digits(s@.subrange(start as int, i as int)) == Some(acc as u8),
            i > start ==> acc <= 255,
            i == start ==> acc == 0,
        decreases n - i,
    {
        let c = s.get_char(i);
        if !('0' <= c && c <= '9') {
            proof {
                assert(s@.subrange(start as int, n as int)[i - start] == s@[i as int]);
                lemma_parse_u8_digits_bad(s@.subrange(start as int, n as int), i - start);
                assert(s@.subrange(0, n as int) =~= s@);
                assert(parse_u8_spec(s@) == parse_u8_digits(digits));
            }
            return None;
        }
        let v = c as u32 - 48;
        if acc * 10 + v > 255 {
            proof {
                assert(s@.subrange(start as int, n as int).subrange(0, i - start) =~= s@.subrange(
                    start as int,
                    i as int,
                ));
                assert(s@.subrange(start as int, n as int)[i - start] == s@[i as int]);
                lemma_parse_u8_digits_overflow(s@.subrange(start as int, n as int), i - start);
                assert(s@.subrange(0, n as int) =~= s@);
                assert(parse_u8_spec(s@) == parse_u8_digits(digits));
            }
            return None;
        }
        proof {
            assert(s@.subrange(start as int, i as int + 1).drop_last() =~= s@.subrange(
                start as int,
                i as int,
            ));
        }
        acc = acc * 10 + v;
        i += 1;
    }
    proof {
        assert(digits =~= s@.subrange(start as int, n as int));
    }
    Some(acc as u8)
}

/// A non-digit anywhere makes the whole text unparseable.
proof fn lemma_parse_u8_digits_bad(s: Seq<char>, i: int)
    requires
        0 <= i < s.len(),
        digit_val(s[i]) is None,
    ensures
        parse_u8_digits(s) is None,
    decreases s.len(),
{
    if s.len() > 1 && i < s.len() - 1 {
        lemma_parse_u8_digits_bad(s.drop_last(), i);
    }
}

/// A prefix already too large makes the whole text unparseable.
proof fn lemma_parse_u8_digits_overflow(s: Seq<char>, i: int)
    requires
        0 < i < s.len(),
        parse_u8_digits(s.subrange(0, i)) is None || (parse_u8_digits(s.subrange(0, i)) matches
            Some(v) && digit_val(s[i]) matches Some(d) && v as u32 * 10 + d > 255),
    ensures
        parse_u8_digits(s) is None,
    decreases s.len(),
{
    if i < s.len() - 1 {
        assert(s.drop_last().subrange(0, i) =~= s.subrange(0, i));
        lemma_parse_u8_digits_overflow(s.drop_last(), i);
    } else {
        assert(s.drop_last() =~= s.subrange(0, i));
    }
}

} // verus!
