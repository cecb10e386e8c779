//! Textual encodings the pipeline emits: percent-encoding for query strings,
//! standard base64 for basic credentials, and decimal and hexadecimal digit
//! strings for sizes, timestamps and identifiers.
use vstd::prelude::*;
use vstd::utf8::encode_utf8;

use crate::text::chars_to_string;

verus! {

/// The bytes that standard URL query encoding leaves as they are: ASCII
/// alphanumerics and `-`, `.`, `_`, `~`.
pub open spec fn is_unreserved_byte(b: u8) -> bool {
    (48 <= b <= 57) || (65 <= b <= 90) || (97 <= b <= 122) || b == 45 || b == 46 || b == 95 || b
        == 126
}

/// Uppercase hexadecimal digit for a value below 16.
pub open spec fn hex_upper_digit(n: int) -> char {
    if n < 10 {
        ((48 + n) as u8) as char
    } else {
        ((55 + n) as u8) as char
    }
}

pub open spec fn percent_encode_byte(b: u8) -> Seq<char> {
    if is_unreserved_byte(b) {
        seq![b as char]
    } else {
        seq!['%', hex_upper_digit(b as int / 16), hex_upper_digit(b as int % 16)]
    }
}

pub open spec fn percent_encode_bytes(bs: Seq<u8>) -> Seq<char>
    decreases bs.len(),
{
    if bs.len() == 0 {
        Seq::<char>::empty()
    } else {
        percent_encode_byte(bs[0]) + percent_encode_bytes(bs.drop_first())
    }
}

/// Percent-encoding of a string: every byte of its UTF-8 form except the
/// unreserved set becomes `%` and two uppercase hex digits. Space is `%20`.
pub open spec fn percent_encode(s: Seq<char>) -> Seq<char> {
    percent_encode_bytes(encode_utf8(s))
}

/// Relies on `urlencoding::encode`: percent-encodes every byte of the UTF-8
/// form except ASCII alphanumerics and `-`, `.`, `_`, `~`, with uppercase
/// hexadecimal digits.
#[verifier::external_body]
pub fn url_encode(s: &str) -> (r: String)
    ensures
        r@ == percent_encode(s@),
{
    urlencoding::encode(s).into_owned()
}

/// Character `i` of the standard base64 alphabet, for `i` below 64.
pub open spec fn base64_char(i: int) -> char {
    if i < 26 {
        ((65 + i) as u8) as char
    } else if i < 52 {
        ((71 + i) as u8) as char
    } else if i < 62 {
        ((i - 4) as u8) as char
    } else if i == 62 {
        '+'
    } else {
        '/'
    }
}

/// Standard, padded base64: each group of three bytes becomes four alphabet
/// characters; a trailing group of one or two bytes is padded with `=`.
pub open spec fn base64_encode_bytes(bs: Seq<u8>) -> Seq<char>
    decreases bs.len(),
{
    if bs.len() == 0 {
        Seq::<char>::empty()
    } else if bs.len() == 1 {
        let b0 = bs[0] as int;
        seq![base64_char(b0 / 4), base64_char((b0 % 4) * 16), '=', '=']
    } else if bs.len() == 2 {
        let b0 = bs[0] as int;
        let b1 = bs[1] as int;
        seq![base64_char(b0 / 4), base64_char((b0 % 4) * 16 + b1 / 16), base64_char((b1 % 16) * 4), '=']
    } else {
        let b0 = bs[0] as int;
        let b1 = bs[1] as int;
        let b2 = bs[2] as int;
        seq![
            base64_char(b0 / 4),
            base64_char((b0 % 4) * 16 + b1 / 16),
            base64_char((b1 % 16) * 4 + b2 / 64),
            base64_char(b2 % 64),
        ] + base64_encode_bytes(bs.skip(3))
    }
}

/// Relies on base64's `STANDARD` engine: the standard alphabet with `=`
/// padding, applied to the UTF-8 bytes of the input.
#[verifier::external_body]
pub fn base64_encode(s: &str) -> (r: String)
    ensures
        r@ == base64_encode_bytes(encode_utf8(s@)),
{
    base64::Engine::encode(&base64::engine::general_purpose::STANDARD, s.as_bytes())
}

/// Decimal digit character for a value below 10.
pub open spec fn dec_digit(n: int) -> char {
    ((48 + n) as u8) as char
}

/// Decimal digit string of a natural number, no leading zeros.
pub open spec fn dec_nat(n: nat) -> Seq<char>
    decreases n,
{
    if n < 10 {
        seq![dec_digit(n as int)]
    } else {
        dec_nat(n / 10) + seq![dec_digit((n % 10) as int)]
    }
}

/// Lowercase hexadecimal digit string of a natural number, no leading zeros.
pub open spec fn hex_nat(n: nat) -> Seq<char>
    decreases n,
{
    let d = (n % 16) as int;
    let c = if d < 10 {
        ((48 + d) as u8) as char
    } else {
        ((87 + d) as u8) as char
    };
    if n < 16 {
        seq![c]
    } else {
        hex_nat(n / 16) + seq![c]
    }
}

/// The decimal rendering of an unsigned number.
pub fn u128_to_dec(n: u128) -> (r: String)
    ensures
        r@ == dec_nat(n as nat),
{
    let mut digits: Vec<char> = Vec::new();
    let mut x: u128 = n;
    if x == 0 {
        digits.push('0');
    }
    while x > 0
        invariant
            x > 0 ==> dec_nat(n as nat) == dec_nat(x as nat) + digits@.reverse(),
            x == 0 ==> dec_nat(n as nat) == digits@.reverse(),
        decreases x,
    {
        let d = (x % 10) as u8;
        let ghost prev = digits@;
        let ghost oldx = x as nat;
        digits.push((48 + d) as char);
        x = x / 10;
        proof {
            assert(digits@.reverse() =~= seq![dec_digit((oldx % 10) as int)] + prev.reverse());
            if x > 0 {
                assert(dec_nat(oldx) == dec_nat(oldx / 10) + seq![dec_digit((oldx % 10) as int)]);
                assert(dec_nat(oldx / 10) + (seq![dec_digit((oldx % 10) as int)] + prev.reverse())
                    =~= (dec_nat(oldx / 10) + seq![dec_digit((oldx % 10) as int)]) + prev.reverse());
            } else {
                assert(oldx < 10);
                assert(dec_nat(oldx) =~= seq![dec_digit((oldx % 10) as int)]);
            }
        }
    }
    let mut out: Vec<char> = Vec::new();
    let n_d = digits.len();
    for k in 0..n_d
        invariant
            n_d == digits@.len(),
            out@ == digits@.reverse().take(k as int),
    {
        out.push(digits[n_d - 1 - k]);
        proof {
            assert(digits@.reverse()[k as int] == digits@[n_d - 1 - k]);
            assert(out@ =~= digits@.reverse().take(k + 1));
        }
    }
    proof {
        assert(out@ =~= digits@.reverse());
    }
    chars_to_string(&out)
}

/// The lowercase hexadecimal rendering of an unsigned number.
pub fn u32_to_hex(n: u32) -> (r: String)
    ensures
        r@ == hex_nat(n as nat),
{
    let mut digits: Vec<char> = Vec::new();
    let mut x: u32 = n;
    let mut first = true;
    while first || x > 0
        invariant
            first ==> x == n && digits@.len() == 0,
            !first && x > 0 ==> hex_nat(n as nat) == hex_nat(x as nat) + digits@.reverse(),
            !first && x == 0 ==> hex_nat(n as nat) == digits@.reverse(),
        decreases x + if first {
            1int
        } else {
            0int
        },
    {
        let d = (x % 16) as u8;
        let c = if d < 10 {
            (48 + d) as char
        } else {
            (87 + d) as char
        };
        let ghost prev = digits@;
        let ghost oldx = x as nat;
        digits.push(c);
        x = x / 16;
        first = false;
        proof {
            let dc = if (oldx % 16) < 10 {
                ((48 + (oldx % 16)) as u8) as char
            } else {
                ((87 + (oldx % 16)) as u8) as char
            };
            assert(digits@.reverse() =~= seq![dc] + prev.reverse());
            if x > 0 {
                assert(hex_nat(oldx) == hex_nat(oldx / 16) + seq![dc]);
                assert(hex_nat(oldx / 16) + (seq![dc] + prev.reverse()) =~= (hex_nat(oldx / 16)
                    + seq![dc]) + prev.reverse());
            } else {
                assert(oldx < 16);
                assert(hex_nat(oldx) =~= seq![dc]);
            }
        }
    }
    let mut out: Vec<char> = Vec::new();
    let n_d = digits.len();
    for k in 0..n_d
        invariant
            n_d == digits@.len(),
            out@ == digits@.reverse().take(k as int),
    {
        out.push(digits[n_d - 1 - k]);
        proof {
            assert(digits@.reverse()[k as int] == digits@[n_d - 1 - k]);
            assert(out@ =~= digits@.reverse().take(k + 1));
        }
    }
    proof {
        assert(out@ =~= digits@.reverse());
    }
    chars_to_string(&out)
}

} // verus!
