//! Decoding a hexadecimal colour token into an RGBA colour.

use vstd::prelude::*;
use vstd::string::*;
use crate::error::GenError;

verus! {

/// Whether `c` is a hexadecimal digit (`0-9`, `a-f`, `A-F`).
pub open spec fn is_hex_digit(c: char) -> bool {
    ('0' as u32 <= c as u32 && c as u32 <= '9' as u32) || ('A' as u32 <= c as u32 && c as u32
        <= 'F' as u32) || ('a' as u32 <= c as u32 && c as u32 <= 'f' as u32)
}

/// The numeric value of a hexadecimal digit.
pub open spec fn hex_val(c: char) -> nat {
    if '0' as u32 <= c as u32 && c as u32 <= '9' as u32 {
        (c as u32 - '0' as u32) as nat
    } else if 'A' as u32 <= c as u32 && c as u32 <= 'F' as u32 {
        (c as u32 - 'A' as u32 + 10) as nat
    } else {
        (c as u32 - 'a' as u32 + 10) as nat
    }
}

/// The byte written by two hexadecimal digits, high digit first.
pub open spec fn hex_byte(hi: char, lo: char) -> nat {
    hex_val(hi) * 16 + hex_val(lo)
}

/// Whether every character of `s` is a hexadecimal digit.
pub open spec fn all_hex(s: Seq<char>) -> bool {
    forall|i: int| 0 <= i < s.len() ==> is_hex_digit(#[trigger] s[i])
}

/// `s` with a single leading `#` removed, if one is present.
pub open spec fn strip_hash(s: Seq<char>) -> Seq<char> {
    if s.len() > 0 && s[0] == '#' {
        s.subrange(1, s.len() as int)
    } else {
        s
    }
}

/// Whether a stripped token is an acceptable colour token: exactly 6 (RGB)
/// or 8 (RGBA) hexadecimal digits.
pub open spec fn valid_hex_token(s: Seq<char>) -> bool {
    (s.len() == 6 || s.len() == 8) && all_hex(s)
}

/// The alpha channel of a stripped token: its fourth byte pair when the
/// token has 8 digits, fully opaque (255) otherwise.
pub open spec fn alpha_of(s: Seq<char>) -> nat {
    if s.len() == 8 {
        hex_byte(s[6], s[7])
    } else {
        255
    }
}

/// What decoding a colour token yields: the four channel bytes on success,
/// and which error otherwise. Length is checked before digit validity.
pub open spec fn decode(s: Seq<char>) -> Result<(u8, u8, u8, u8), GenError> {
    let t = strip_hash(s);
    if t.len() != 6 && t.len() != 8 {
        Err(GenError::InvalidFormat)
    } else if !all_hex(t) {
        Err(GenError::InvalidDigit)
    } else {
        Ok(
            (
                hex_byte(t[0], t[1]) as u8,
                hex_byte(t[2], t[3]) as u8,
                hex_byte(t[4], t[5]) as u8,
                alpha_of(t) as u8,
            ),
        )
    }
}

/// An RGBA colour decoded from a hexadecimal token, together with the
/// normalized (post-strip) token it was decoded from.
#[derive(Clone, Debug)]
pub struct Color {
    pub r: u8,
    pub g: u8,
    pub b: u8,
    pub a: u8,
    pub hex: String,
}

impl Color {
    /// The channels agree with the stored token.
    pub open spec fn wf(self) -> bool {
        valid_hex_token(self.hex@) && self.r == hex_byte(self.hex@[0], self.hex@[1]) && self.g
            == hex_byte(self.hex@[2], self.hex@[3]) && self.b == hex_byte(
            self.hex@[4],
            self.hex@[5],
        ) && self.a == alpha_of(self.hex@)
    }

    /// Decode a colour token: strip a single leading `#`, demand 6 or 8
    /// hexadecimal digits, and read the channel bytes, alpha defaulting to
    /// fully opaque for a 6-digit token.
    pub fn from_str(s: &str) -> (r: Result<Color, GenError>)
        ensures
            r is Ok <==> valid_hex_token(strip_hash(s@)),
            match r {
                Ok(c) => decode(s@) == Ok::<(u8, u8, u8, u8), GenError>((c.r, c.g, c.b, c.a))
                    && c.hex@ == strip_hash(s@) && c.wf(),
                Err(e) => decode(s@) == Err::<(u8, u8, u8, u8), GenError>(e),
            },
    {
        let n = s.unicode_len();
        let t: &str = if n > 0 && s.get_char(0) == '#' {
            s.substring_char(1, n)
        } else {
            s
        };
        assert(t@ == strip_hash(s@));
        let m = t.unicode_len();
        if m != 6 && m != 8 {
            return Err(GenError::InvalidFormat);
        }
        let red = match parse_byte_pair(t, 0) {
            Some(v) => v,
            None => {
                return Err(GenError::InvalidDigit);
            },
        };
        let green = match parse_byte_pair(t, 2) {
            Some(v) => v,
            None => {
                return Err(GenError::InvalidDigit);
            },
        };
        let blue = match parse_byte_pair(t, 4) {
            Some(v) => v,
            None => {
                return Err(GenError::InvalidDigit);
            },
        };
        let alpha: u8 = if m == 8 {
            match parse_byte_pair(t, 6) {
                Some(v) => v,
                None => {
                    return Err(GenError::InvalidDigit);
                },
            }
        } else {
            255
        };
        proof {
            assert forall|i: int| 0 <= i < t@.len() implies is_hex_digit(#[trigger] t@[i]) by {
                if m == 6 {
                    assert(i == 0 || i == 1 || i == 2 || i == 3 || i == 4 || i == 5);
                } else {
                    assert(i == 0 || i == 1 || i == 2 || i == 3 || i == 4 || i == 5 || i == 6 || i
                        == 7);
                }
            }
        }
        Ok(Color { r: red, g: green, b: blue, a: alpha, hex: t.to_owned() })
    }

    /// The default output file name: the normalized hex token with a
    /// `.png` extension.
    pub fn default_output(&self) -> (r: String)
        ensures
            r@ == self.hex@ + ".png"@,
    {
        let base = self.hex.clone();
        base.concat(".png")
    }

    /// The output file name to use: the explicit path when one was given,
    /// the default name derived from the colour otherwise.
    pub fn resolve_output(&self, explicit: Option<String>) -> (r: String)
        ensures
            match explicit {
                Some(p) => r@ == p@,
                None => r@ == self.hex@ + ".png"@,
            },
    {
        match explicit {
            Some(p) => p,
            None => self.default_output(),
        }
    }

    /// The colour as the four channel bytes in RGBA order.
    pub fn to_rgba(&self) -> (r: [u8; 4])
        ensures
            r@ == seq![self.r, self.g, self.b, self.a],
    {
        let out = [self.r, self.g, self.b, self.a];
        proof {
            assert(out@ =~= seq![self.r, self.g, self.b, self.a]);
        }
        out
    }
}

/// Decoding a 6-digit hexadecimal token yields the three pairwise hex
/// parses as red, green and blue, and a fully opaque alpha.
pub proof fn lemma_decode_rgb(s: Seq<char>)
    requires
        s.len() == 6,
        all_hex(s),
    ensures
        decode(s) == Ok::<(u8, u8, u8, u8), GenError>(
            (
                hex_byte(s[0], s[1]) as u8,
                hex_byte(s[2], s[3]) as u8,
                hex_byte(s[4], s[5]) as u8,
                255u8,
            ),
        ),
{
    assert(is_hex_digit(s[0]));
    assert(s[0] != '#');
    assert(strip_hash(s) == s);
}

/// Decoding an 8-digit hexadecimal token yields the four pairwise hex
/// parses as red, green, blue and alpha.
pub proof fn lemma_decode_rgba(s: Seq<char>)
    requires
        s.len() == 8,
        all_hex(s),
    ensures
        decode(s) == Ok::<(u8, u8, u8, u8), GenError>(
            (
                hex_byte(s[0], s[1]) as u8,
                hex_byte(s[2], s[3]) as u8,
                hex_byte(s[4], s[5]) as u8,
                hex_byte(s[6], s[7]) as u8,
            ),
        ),
{
    assert(is_hex_digit(s[0]));
    assert(s[0] != '#');
    assert(strip_hash(s) == s);
}

/// Decoding is insensitive to a single leading `#`: prefixing a token that
/// does not itself start with `#` decodes to the same outcome.
pub proof fn lemma_hash_insensitive(s: Seq<char>)
    requires
        s.len() == 0 || s[0] != '#',
    ensures
        decode(seq!['#'].add(s)) == decode(s),
{
    let t = seq!['#'].add(s);
    assert(t[0] == '#');
    assert(t.subrange(1, t.len() as int) =~= s);
    assert(strip_hash(t) == s);
    assert(strip_hash(s) == s);
}

/// Decoding fails with `InvalidFormat` exactly when the stripped token has
/// a length other than 6 or 8.
pub proof fn lemma_invalid_format(s: Seq<char>)
    ensures
        decode(s) == Err::<(u8, u8, u8, u8), GenError>(GenError::InvalidFormat) <==> (strip_hash(
            s,
        ).len() != 6 && strip_hash(s).len() != 8),
{
}

/// Decoding fails with `InvalidDigit` exactly when the stripped token has
/// an acceptable length but holds a non-hexadecimal character.
pub proof fn lemma_invalid_digit(s: Seq<char>)
    ensures
        decode(s) == Err::<(u8, u8, u8, u8), GenError>(GenError::InvalidDigit) <==> ((strip_hash(
            s,
        ).len() == 6 || strip_hash(s).len() == 8) && !all_hex(strip_hash(s))),
{
}

/// The numeric value of a hexadecimal digit character, if it is one.
fn hex_digit_value(c: char) -> (r: Option<u8>)
    ensures
        match r {
            Some(v) => is_hex_digit(c) && v == hex_val(c) && v <= 15,
            None => !is_hex_digit(c),
        },
{
    let x: u32 = c as u32;
    if 48 <= x && x <= 57 {
        Some((x - 48) as u8)
    } else if 65 <= x && x <= 70 {
        Some((x - 65 + 10) as u8)
    } else if 97 <= x && x <= 102 {
        Some((x - 97 + 10) as u8)
    } else {
        None
    }
}

/// The byte written at positions `i`, `i + 1` of `t`, if both are
/// hexadecimal digits.
fn parse_byte_pair(t: &str, i: usize) -> (r: Option<u8>)
    requires
        i + 2 <= t@.len(),
        i + 2 <= usize::MAX,
    ensures
        match r {
            Some(v) => is_hex_digit(t@[i as int]) && is_hex_digit(t@[i + 1]) && v == hex_byte(
                t@[i as int],
                t@[i + 1],
            ),
            None => !(is_hex_digit(t@[i as int]) && is_hex_digit(t@[i + 1])),
        },
{
    let hi = t.get_char(i);
    let lo = t.get_char(i + 1);
    match (hex_digit_value(hi), hex_digit_value(lo)) {
        (Some(h), Some(l)) => Some(h * 16 + l),
        _ => None,
    }
}

} // verus!
