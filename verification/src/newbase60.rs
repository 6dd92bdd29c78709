//! New-base-60 ("sexagesimal") digit strings, as used by short-link codes.
//!
//! The alphabet is the digits `0`-`9`, the upper-case letters without `I`
//! and `O`, `_`, and the lower-case letters without `l`; the ambiguous
//! letters `I`, `l` and `O` are read as `1`, `1` and `0`.

use vstd::arithmetic::div_mod::lemma_fundamental_div_mod;
use vstd::arithmetic::mul::lemma_mul_inequality;
use vstd::prelude::*;

verus! {

/// Value of a single new-base-60 digit, or -1 where the character is not one.
pub open spec fn sxg_digit_val(c: char) -> int {
    let v = c as int;
    if '0' as int <= v && v <= '9' as int {
        v - '0' as int
    } else if 'A' as int <= v && v <= 'H' as int {
        v - 'A' as int + 10
    } else if c == 'I' || c == 'l' {
        1
    } else if 'J' as int <= v && v <= 'N' as int {
        v - 'J' as int + 18
    } else if c == 'O' {
        0
    } else if 'P' as int <= v && v <= 'Z' as int {
        v - 'P' as int + 23
    } else if c == '_' {
        34
    } else if 'a' as int <= v && v <= 'k' as int {
        v - 'a' as int + 35
    } else if 'm' as int <= v && v <= 'z' as int {
        v - 'm' as int + 46
    } else {
        -1
    }
}

pub open spec fn is_sxg_digit(c: char) -> bool {
    sxg_digit_val(c) >= 0
}

pub open spec fn all_sxg_digits(s: Seq<char>) -> bool {
    forall|i: int| 0 <= i < s.len() ==> is_sxg_digit(#[trigger] s[i])
}

/// The number a digit string denotes, most significant digit first.
pub open spec fn sxg_num(s: Seq<char>) -> int
    decreases s.len(),
{
    if s.len() == 0 {
        0
    } else {
        sxg_num(s.drop_last()) * 60 + sxg_digit_val(s.last())
    }
}

proof fn lemma_sxg_num_nonneg(s: Seq<char>)
    requires
        all_sxg_digits(s),
    ensures
        sxg_num(s) >= 0,
    decreases s.len(),
{
    if s.len() > 0 {
        assert(all_sxg_digits(s.drop_last()));
        lemma_sxg_num_nonneg(s.drop_last());
        lemma_mul_inequality(0, sxg_num(s.drop_last()), 60);
    }
}

/// A prefix of a digit string never denotes more than the whole string.
proof fn lemma_sxg_num_prefix_le(s: Seq<char>, i: int)
    requires
        all_sxg_digits(s),
        0 <= i <= s.len(),
    ensures
        sxg_num(s.take(i)) <= sxg_num(s),
    decreases s.len(),
{
    if i < s.len() {
        let t = s.drop_last();
        assert(all_sxg_digits(t));
        assert(s.take(i) =~= t.take(i));
        lemma_sxg_num_prefix_le(t, i);
        lemma_sxg_num_nonneg(t);
        lemma_mul_inequality(sxg_num(t), sxg_num(t) * 1, 60);
        assert(sxg_num(t) * 1 == sxg_num(t));
        lemma_mul_inequality(sxg_num(t) * 1, sxg_num(t) * 60, 1);
        assert(sxg_num(t) <= sxg_num(t) * 60) by {
            lemma_mul_inequality(1, 60, sxg_num(t));
            assert(1 * sxg_num(t) == sxg_num(t));
            assert(60 * sxg_num(t) == sxg_num(t) * 60);
        }
        assert(sxg_num(s) == sxg_num(t) * 60 + sxg_digit_val(s.last()));
        assert(sxg_digit_val(s.last()) >= 0);
    } else {
        assert(s.take(i) =~= s);
    }
}

/// Reads a character as a new-base-60 digit.
fn sxg_digit(c: char) -> (r: Option<u8>)
    ensures
        match r {
            Some(d) => d as int == sxg_digit_val(c) && d < 60,
            None => !is_sxg_digit(c),
        },
{
    let v = c as u32;
    if '0' as u32 <= v && v <= '9' as u32 {
        Some((v - '0' as u32) as u8)
    } else if 'A' as u32 <= v && v <= 'H' as u32 {
        Some((v - 'A' as u32) as u8 + 10)
    } else if c == 'I' || c == 'l' {
        Some(1)
    } else if 'J' as u32 <= v && v <= 'N' as u32 {
        Some((v - 'J' as u32) as u8 + 18)
    } else if c == 'O' {
        Some(0)
    } else if 'P' as u32 <= v && v <= 'Z' as u32 {
        Some((v - 'P' as u32) as u8 + 23)
    } else if c == '_' {
        Some(34)
    } else if 'a' as u32 <= v && v <= 'k' as u32 {
        Some((v - 'a' as u32) as u8 + 35)
    } else if 'm' as u32 <= v && v <= 'z' as u32 {
        Some((v - 'm' as u32) as u8 + 46)
    } else {
        None
    }
}

/// Reads a whole new-base-60 digit string as a number.
///
/// Returns `None` when a character is not a digit of the alphabet or the
/// denoted number does not fit in a `u64`; the empty string denotes zero.
pub fn sxg_to_num(s: &str) -> (r: Option<u64>)
    ensures
        match r {
            Some(v) => all_sxg_digits(s@) && v as int == sxg_num(s@),
            None => !(all_sxg_digits(s@) && sxg_num(s@) <= u64::MAX),
        },
{
    let n = s.unicode_len();
    let mut i: usize = 0;
    let mut acc: u64 = 0;
    while i < n
        invariant
            i <= n,
            n == s@.len(),
            all_sxg_digits(s@.take(i as int)),
            acc as int == sxg_num(s@.take(i as int)),
        decreases n - i,
    {
        let c = s.get_char(i);
        let d: u8 = match sxg_digit(c) {
            Some(d) => d,
            None => {
                proof {
                    assert(!is_sxg_digit(s@[i as int]));
                }
                return None;
            },
        };
        if acc > (u64::MAX - d as u64) / 60 {
            proof {
                let pre = s@.take(i as int);
                let pre1 = s@.take(i as int + 1);
                assert(pre1.drop_last() =~= pre);
                assert(pre1.last() == s@[i as int]);
                let dv = sxg_digit_val(s@[i as int]);
                let q = (u64::MAX - d as u64) as int / 60;
                lemma_fundamental_div_mod(u64::MAX - dv, 60);
                lemma_mul_inequality(q + 1, acc as int, 60);
                assert(sxg_num(pre1) == acc as int * 60 + dv);
                assert(sxg_num(pre1) > u64::MAX);
                if all_sxg_digits(s@) {
                    lemma_sxg_num_prefix_le(s@, i as int + 1);
                }
            }
            return None;
        }
        proof {
            let dv = sxg_digit_val(s@[i as int]);
            let q = (u64::MAX - d as u64) as int / 60;
            lemma_fundamental_div_mod(u64::MAX - dv, 60);
            lemma_mul_inequality(acc as int, q, 60);
            let pre1 = s@.take(i as int + 1);
            assert(pre1.drop_last() =~= s@.take(i as int));
            assert(pre1.last() == s@[i as int]);
        }
        acc = acc * 60 + d as u64;
        i += 1;
    }
    proof {
        assert(s@.take(n as int) =~= s@);
    }
    Some(acc)
}

} // verus!
