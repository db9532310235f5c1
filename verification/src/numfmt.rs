//! Decimal rendering of the integers the pipeline reports: plain
//! decimals, two-digit zero-padded fields for clock displays, and
//! fixed fraction digits for millisecond and millionth values.

use vstd::prelude::*;

verus! {

/// The decimal digit character for `d` in `0..10`.
pub open spec fn digit_char(d: int) -> char {
    if d == 0 {
        '0'
    } else if d == 1 {
        '1'
    } else if d == 2 {
        '2'
    } else if d == 3 {
        '3'
    } else if d == 4 {
        '4'
    } else if d == 5 {
        '5'
    } else if d == 6 {
        '6'
    } else if d == 7 {
        '7'
    } else if d == 8 {
        '8'
    } else {
        '9'
    }
}

/// The decimal digits of a nonnegative number, most significant first.
pub open spec fn dec_spec(n: int) -> Seq<char>
    recommends
        n >= 0,
    decreases n,
{
    if n < 10 {
        seq![digit_char(n)]
    } else {
        dec_spec(n / 10) + seq![digit_char(n % 10)]
    }
}

/// The decimal digits, zero-padded on the left to at least two.
pub open spec fn pad2_spec(n: int) -> Seq<char>
    recommends
        n >= 0,
{
    if n < 10 {
        seq!['0'] + dec_spec(n)
    } else {
        dec_spec(n)
    }
}

/// Exactly three decimal digits of `n` in `0..1000`.
pub open spec fn dec3_spec(n: int) -> Seq<char>
    recommends
        0 <= n < 1000,
{
    seq![digit_char(n / 100), digit_char((n / 10) % 10), digit_char(n % 10)]
}

/// Exactly six decimal digits of `n` in `0..1000000`.
pub open spec fn dec6_spec(n: int) -> Seq<char>
    recommends
        0 <= n < 1000000,
{
    seq![
        digit_char(n / 100000),
        digit_char((n / 10000) % 10),
        digit_char((n / 1000) % 10),
        digit_char((n / 100) % 10),
        digit_char((n / 10) % 10),
        digit_char(n % 10),
    ]
}

/// A millisecond count as decimal seconds with three fraction digits.
pub open spec fn millis_spec(ms: int) -> Seq<char>
    recommends
        ms >= 0,
{
    dec_spec(ms / 1000) + seq!['.'] + dec3_spec(ms % 1000)
}

/// A millionth count as a decimal fraction with six fraction digits.
pub open spec fn ppm_spec(c: int) -> Seq<char>
    recommends
        c >= 0,
{
    dec_spec(c / 1000000) + seq!['.'] + dec6_spec(c % 1000000)
}

/// The one-character string of a decimal digit.
pub fn digit_str(d: u64) -> (r: &'static str)
    requires
        d < 10,
    ensures
        r@ =~= seq![digit_char(d as int)],
{
    proof {
        reveal_strlit("0");
        reveal_strlit("1");
        reveal_strlit("2");
        reveal_strlit("3");
        reveal_strlit("4");
        reveal_strlit("5");
        reveal_strlit("6");
        reveal_strlit("7");
        reveal_strlit("8");
        reveal_strlit("9");
    }
    if d == 0 {
        "0"
    } else if d == 1 {
        "1"
    } else if d == 2 {
        "2"
    } else if d == 3 {
        "3"
    } else if d == 4 {
        "4"
    } else if d == 5 {
        "5"
    } else if d == 6 {
        "6"
    } else if d == 7 {
        "7"
    } else if d == 8 {
        "8"
    } else {
        "9"
    }
}

/// Render a number in decimal.
pub fn dec_u64(n: u64) -> (s: String)
    ensures
        s@ =~= dec_spec(n as int),
    decreases n,
{
    if n < 10 {
        String::from_str(digit_str(n))
    } else {
        let mut s = dec_u64(n / 10);
        s.append(digit_str(n % 10));
        s
    }
}

/// Render a number in decimal, zero-padded to at least two digits.
pub fn pad2_u64(n: u64) -> (s: String)
    ensures
        s@ =~= pad2_spec(n as int),
{
    if n < 10 {
        proof {
            reveal_strlit("0");
        }
        let mut s = String::from_str("0");
        s.append(digit_str(n));
        proof {
            assert(s@ =~= seq!['0'] + dec_spec(n as int));
        }
        s
    } else {
        dec_u64(n)
    }
}

/// Render exactly three decimal digits.
pub fn dec3_u64(n: u64) -> (s: String)
    requires
        n < 1000,
    ensures
        s@ =~= dec3_spec(n as int),
{
    let mut s = String::from_str(digit_str(n / 100));
    s.append(digit_str((n / 10) % 10));
    s.append(digit_str(n % 10));
    proof {
        assert(s@ =~= dec3_spec(n as int));
    }
    s
}

/// Render exactly six decimal digits.
pub fn dec6_u64(n: u64) -> (s: String)
    requires
        n < 1000000,
    ensures
        s@ =~= dec6_spec(n as int),
{
    let mut s = String::from_str(digit_str(n / 100000));
    s.append(digit_str((n / 10000) % 10));
    s.append(digit_str((n / 1000) % 10));
    s.append(digit_str((n / 100) % 10));
    s.append(digit_str((n / 10) % 10));
    s.append(digit_str(n % 10));
    proof {
        assert(s@ =~= dec6_spec(n as int));
    }
    s
}

/// Render a millisecond count as decimal seconds.
pub fn millis_string(ms: u64) -> (s: String)
    ensures
        s@ =~= millis_spec(ms as int),
{
    proof {
        reveal_strlit(".");
    }
    let mut s = dec_u64(ms / 1000);
    s.append(".");
    let f = dec3_u64(ms % 1000);
    s.append(f.as_str());
    proof {
        assert(("."@) =~= seq!['.']);
    }
    s
}

/// Render a millionth count as a decimal fraction.
pub fn ppm_string(c: u32) -> (s: String)
    ensures
        s@ =~= ppm_spec(c as int),
{
    proof {
        reveal_strlit(".");
    }
    let mut s = dec_u64((c as u64) / 1000000);
    s.append(".");
    let f = dec6_u64((c as u64) % 1000000);
    s.append(f.as_str());
    proof {
        assert(("."@) =~= seq!['.']);
    }
    s
}

} // verus!
