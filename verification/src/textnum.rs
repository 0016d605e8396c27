//! Decimal rendering of numbers, for dates and list summaries.

use vstd::prelude::*;

use vstd::string::StringExecFns;

verus! {

/// The character for one decimal digit.
pub open spec fn digit_char(d: int) -> char {
    if d == 0 {
        '0'
    } else if d == 1 {
        '1'
    } else if d == 2 {
        '2'
    } else if d == 3 {
        '3'
    } else if d == 4 {
        '4'
    } else if d == 5 {
        '5'
    } else if d == 6 {
        '6'
    } else if d == 7 {
        '7'
    } else if d == 8 {
        '8'
    } else {
        '9'
    }
}

/// The decimal digits of `n`, most significant first, no leading zeros
/// (a single zero for zero itself).
pub open spec fn dec_digits(n: nat) -> Seq<char>
    decreases n,
{
    if n < 10 {
        seq![digit_char(n as int)]
    } else {
        dec_digits(n / 10).push(digit_char((n % 10) as int))
    }
}

/// `s` left-padded with zeros to width `w`.
pub open spec fn zero_pad(s: Seq<char>, w: nat) -> Seq<char>
    decreases w,
{
    if s.len() >= w {
        s
    } else {
        seq!['0'] + zero_pad(s, (w - 1) as nat)
    }
}

fn digit_str(d: u64) -> (r: &'static str)
    requires
        d < 10,
    ensures
        r@ == seq![digit_char(d as int)],
{
    proof {
        reveal_strlit("0");
        reveal_strlit("1");
        reveal_strlit("2");
        reveal_strlit("3");
        reveal_strlit("4");
        reveal_strlit("5");
        reveal_strlit("6");
        reveal_strlit("7");
        reveal_strlit("8");
        reveal_strlit("9");
    }
    if d == 0 {
        "0"
    } else if d == 1 {
        "1"
    } else if d == 2 {
        "2"
    } else if d == 3 {
        "3"
    } else if d == 4 {
        "4"
    } else if d == 5 {
        "5"
    } else if d == 6 {
        "6"
    } else if d == 7 {
        "7"
    } else if d == 8 {
        "8"
    } else {
        "9"
    }
}

/// Renders a number in decimal.
pub fn u64_to_string(n: u64) -> (r: String)
    ensures
        r@ == dec_digits(n as nat),
    decreases n,
{
    if n < 10 {
        let s = digit_str(n);
        String::from_str(s)
    } else {
        let prefix = u64_to_string(n / 10);
        let last = digit_str(n % 10);
        let r = prefix.concat(last);
        proof {
            assert(r@ =~= dec_digits(n as nat));
        }
        r
    }
}

/// The count of decimal digits grows with the magnitude.
pub proof fn lemma_dec_digits_len(n: nat)
    ensures
        n < 10 ==> dec_digits(n).len() == 1,
        10 <= n < 100 ==> dec_digits(n).len() == 2,
        100 <= n < 1000 ==> dec_digits(n).len() == 3,
        1000 <= n < 10000 ==> dec_digits(n).len() == 4,
    decreases n,
{
    if n >= 10 {
        lemma_dec_digits_len(n / 10);
    }
}

/// Renders a number in decimal, zero-padded to two places.
pub fn pad2_u64(n: u64) -> (r: String)
    requires
        n < 100,
    ensures
        r@ == zero_pad(dec_digits(n as nat), 2),
{
    proof {
        lemma_dec_digits_len(n as nat);
        reveal_with_fuel(zero_pad, 5);
        reveal_strlit("0");
    }
    if n >= 10 {
        u64_to_string(n)
    } else {
        let r = String::from_str("0").concat(u64_to_string(n).as_str());
        proof {
            assert(r@ =~= zero_pad(dec_digits(n as nat), 2));
        }
        r
    }
}

/// Renders a number in decimal, zero-padded to four places.
pub fn pad4_u64(n: u64) -> (r: String)
    requires
        n < 10000,
    ensures
        r@ == zero_pad(dec_digits(n as nat), 4),
{
    proof {
        lemma_dec_digits_len(n as nat);
        reveal_with_fuel(zero_pad, 5);
        reveal_strlit("0");
        reveal_strlit("00");
        reveal_strlit("000");
    }
    if n >= 1000 {
        u64_to_string(n)
    } else if n >= 100 {
        let r = String::from_str("0").concat(u64_to_string(n).as_str());
        proof {
            assert(r@ =~= zero_pad(dec_digits(n as nat), 4));
        }
        r
    } else if n >= 10 {
        let r = String::from_str("00").concat(u64_to_string(n).as_str());
        proof {
            assert(r@ =~= zero_pad(dec_digits(n as nat), 4));
        }
        r
    } else {
        let r = String::from_str("000").concat(u64_to_string(n).as_str());
        proof {
            assert(r@ =~= zero_pad(dec_digits(n as nat), 4));
        }
        r
    }
}

} // verus!
