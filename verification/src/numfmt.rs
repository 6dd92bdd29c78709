//! Decimal rendering of integers, for building expanded short-link paths.

use vstd::prelude::*;
use vstd::string::StringExecFns;

verus! {

pub open spec fn dec_digit(d: int) -> char {
    if d == 0 {
        '0'
    } else if d == 1 {
        '1'
    } else if d == 2 {
        '2'
    } else if d == 3 {
        '3'
    } else if d == 4 {
        '4'
    } else if d == 5 {
        '5'
    } else if d == 6 {
        '6'
    } else if d == 7 {
        '7'
    } else if d == 8 {
        '8'
    } else {
        '9'
    }
}

/// The decimal digits of `n`, most significant first, without leading zeros
/// (zero itself is the single digit `0`).
pub open spec fn dec_str(n: nat) -> Seq<char>
    decreases n,
{
    if n < 10 {
        seq![dec_digit(n as int)]
    } else {
        dec_str(n / 10).push(dec_digit((n % 10) as int))
    }
}

/// Decimal digits with a `-` sign in front for negative numbers.
pub open spec fn dec_str_signed(n: int) -> Seq<char> {
    if n < 0 {
        seq!['-'] + dec_str((-n) as nat)
    } else {
        dec_str(n as nat)
    }
}

/// Decimal digits, left-padded with `0` to a width of at least two.
pub open spec fn pad2(s: Seq<char>) -> Seq<char> {
    if s.len() < 2 {
        seq!['0'] + s
    } else {
        s
    }
}

proof fn lemma_dec_str_len(n: nat)
    ensures
        dec_str(n).len() >= 1,
        n < 10 <==> dec_str(n).len() == 1,
    decreases n,
{
    if n >= 10 {
        lemma_dec_str_len(n / 10);
    }
}

fn dec_digit_str(d: u32) -> (r: &'static str)
    requires
        d < 10,
    ensures
        r@ == seq![dec_digit(d as int)],
{
    let r: &'static str = match d {
        0 => "0",
        1 => "1",
        2 => "2",
        3 => "3",
        4 => "4",
        5 => "5",
        6 => "6",
        7 => "7",
        8 => "8",
        _ => "9",
    };
    proof {
        reveal_strlit("0");
        reveal_strlit("1");
        reveal_strlit("2");
        reveal_strlit("3");
        reveal_strlit("4");
        reveal_strlit("5");
        reveal_strlit("6");
        reveal_strlit("7");
        reveal_strlit("8");
        reveal_strlit("9");
        assert(r@ =~= seq![dec_digit(d as int)]);
    }
    r
}

/// Renders `n` in decimal.
pub fn u32_to_string(n: u32) -> (r: String)
    ensures
        r@ == dec_str(n as nat),
    decreases n,
{
    if n < 10 {
        dec_digit_str(n).to_owned()
    } else {
        let mut s = u32_to_string(n / 10);
        s.append(dec_digit_str(n % 10));
        proof {
            assert(s@ =~= dec_str((n / 10) as nat).push(dec_digit((n % 10) as int)));
        }
        s
    }
}

/// Renders `n` in decimal, with a leading `-` when it is negative.
pub fn i32_to_string(n: i32) -> (r: String)
    ensures
        r@ == dec_str_signed(n as int),
{
    if n < 0 {
        let mag: u32 = (-(n as i64)) as u32;
        let mut s = "-".to_owned();
        proof {
            reveal_strlit("-");
            assert(s@ =~= seq!['-']);
        }
        let digits = u32_to_string(mag);
        s.append(digits.as_str());
        proof {
            assert(s@ =~= seq!['-'] + dec_str((-(n as int)) as nat));
        }
        s
    } else {
        u32_to_string(n as u32)
    }
}

/// Renders `n` in decimal, zero-padded on the left to at least two digits.
pub fn u32_to_string_pad2(n: u32) -> (r: String)
    ensures
        r@ == pad2(dec_str(n as nat)),
{
    if n < 10 {
        let mut s = "0".to_owned();
        proof {
            reveal_strlit("0");
            assert(s@ =~= seq!['0']);
        }
        s.append(dec_digit_str(n));
        proof {
            assert(s@ =~= pad2(dec_str(n as nat)));
        }
        s
    } else {
        let r = u32_to_string(n);
        proof {
            lemma_dec_str_len(n as nat);
        }
        r
    }
}

} // verus!
