//! Validating image dimensions given as decimal tokens.

use vstd::prelude::*;
use vstd::string::*;
use crate::error::GenError;

verus! {

/// Whether `c` is a decimal digit.
pub open spec fn is_dec_digit(c: char) -> bool {
    '0' as u32 <= c as u32 && c as u32 <= '9' as u32
}

/// The numeric value of a decimal digit.
pub open spec fn dec_val(c: char) -> nat {
    (c as u32 - '0' as u32) as nat
}

/// Whether every character of `s` is a decimal digit.
pub open spec fn all_dec(s: Seq<char>) -> bool {
    forall|i: int| 0 <= i < s.len() ==> is_dec_digit(#[trigger] s[i])
}

/// The number written in `s` in base ten, most significant digit first.
pub open spec fn dec_value(s: Seq<char>) -> nat
    decreases s.len(),
{
    if s.len() == 0 {
        0
    } else {
        dec_value(s.drop_last()) * 10 + dec_val(s.last())
    }
}

/// Whether `s` is an acceptable dimension token: a non-empty digit string
/// whose value is at least 1 and fits in a `u32`.
pub open spec fn valid_dimension(s: Seq<char>) -> bool {
    s.len() > 0 && all_dec(s) && 1 <= dec_value(s) <= u32::MAX
}

/// Reading one more digit multiplies the prefix value by ten and adds it.
proof fn lemma_dec_value_step(s: Seq<char>, i: int)
    requires
        0 <= i < s.len(),
    ensures
        dec_value(s.subrange(0, i + 1)) == dec_value(s.subrange(0, i)) * 10 + dec_val(s[i]),
{
    let p = s.subrange(0, i + 1);
    assert(p.drop_last() =~= s.subrange(0, i));
    assert(p.last() == s[i]);
}

/// The value of a prefix never exceeds the value of the whole string.
proof fn lemma_dec_value_prefix_le(s: Seq<char>, i: int)
    requires
        0 <= i <= s.len(),
    ensures
        dec_value(s.subrange(0, i)) <= dec_value(s),
    decreases s.len() - i,
{
    if i == s.len() {
        assert(s.subrange(0, i) =~= s);
    } else {
        lemma_dec_value_step(s, i);
        lemma_dec_value_prefix_le(s, i + 1);
    }
}

/// The numeric value of a decimal digit character, if it is one.
fn dec_digit_value(c: char) -> (r: Option<u8>)
    ensures
        match r {
            Some(v) => is_dec_digit(c) && v == dec_val(c) && v <= 9,
            None => !is_dec_digit(c),
        },
{
    let x: u32 = c as u32;
    if 48 <= x && x <= 57 {
        Some((x - 48) as u8)
    } else {
        None
    }
}

/// Validate a dimension token: it must be a non-empty string of decimal
/// digits whose value is at least 1 and at most `u32::MAX`; any other token
/// is rejected with `RangeOrFormat`.
pub fn parse_dimension(s: &str) -> (r: Result<u32, GenError>)
    ensures
        r is Ok <==> valid_dimension(s@),
        match r {
            Ok(v) => v == dec_value(s@),
            Err(e) => e == GenError::RangeOrFormat,
        },
{
    let n = s.unicode_len();
    let mut acc: u64 = 0;
    let mut i: usize = 0;
    while i < n
        invariant
            i <= n,
            n == s@.len(),
            acc == dec_value(s@.subrange(0, i as int)),
            acc <= u32::MAX,
            forall|j: int| 0 <= j < i ==> is_dec_digit(#[trigger] s@[j]),
        decreases n - i,
    {
        let c = s.get_char(i);
        let d: u8 = match dec_digit_value(c) {
            Some(v) => v,
            None => {
                return Err(GenError::RangeOrFormat);
            },
        };
        let next: u64 = acc * 10 + (d as u64);
        proof {
            lemma_dec_value_step(s@, i as int);
        }
        if next > 0xFFFF_FFFF {
            proof {
                lemma_dec_value_prefix_le(s@, i + 1);
            }
            return Err(GenError::RangeOrFormat);
        }
        acc = next;
        i = i + 1;
    }
    proof {
        assert(s@.subrange(0, n as int) =~= s@);
    }
    if acc == 0 {
        return Err(GenError::RangeOrFormat);
    }
    Ok(acc as u32)
}

} // verus!
