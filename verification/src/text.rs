//! Text helpers: numbers written out in a radix, and byte strings turned into
//! `String`s.

use vstd::prelude::*;
use vstd::utf8::{decode_utf8, valid_utf8};

verus! {

/// The character that stands for the digit `d` (upper case above nine).
pub open spec fn digit_char(d: int) -> char {
    seq!['0', '1', '2', '3', '4', '5', '6', '7', '8', '9', 'A', 'B', 'C', 'D', 'E', 'F'][d]
}

/// The digits of `n` in the given radix, most significant first, without
/// leading zeros (zero itself is one digit).
pub open spec fn radix_digits(n: nat, radix: nat) -> Seq<char>
    recommends
        2 <= radix <= 16,
    decreases n,
{
    if n < radix || radix < 2 {
        seq![digit_char(n as int)]
    } else {
        proof {
            assert(n / radix < n) by (nonlinear_arith)
                requires
                    2 <= radix <= n,
            ;
        }
        radix_digits(n / radix, radix).push(digit_char((n % radix) as int))
    }
}

/// A signed number in decimal, with a leading minus sign below zero.
pub open spec fn decimal_text(v: int) -> Seq<char> {
    if v < 0 {
        seq!['-'] + radix_digits((-v) as nat, 10)
    } else {
        radix_digits(v as nat, 10)
    }
}

/// The text that `String::from_utf8` reports for bytes that are no UTF-8.
pub uninterp spec fn utf8_error_text(bytes: Seq<u8>) -> Seq<char>;

/// The text of one digit.
fn digit_text(d: u8) -> (r: &'static str)
    requires
        d < 16,
    ensures
        r@ =~= seq![digit_char(d as int)],
{
    match d {
        0 => {
            proof {
                reveal_strlit("0");
            }
            "0"
        },
        1 => {
            proof {
                reveal_strlit("1");
            }
            "1"
        },
        2 => {
            proof {
                reveal_strlit("2");
            }
            "2"
        },
        3 => {
            proof {
                reveal_strlit("3");
            }
            "3"
        },
        4 => {
            proof {
                reveal_strlit("4");
            }
            "4"
        },
        5 => {
            proof {
                reveal_strlit("5");
            }
            "5"
        },
        6 => {
            proof {
                reveal_strlit("6");
            }
            "6"
        },
        7 => {
            proof {
                reveal_strlit("7");
            }
            "7"
        },
        8 => {
            proof {
                reveal_strlit("8");
            }
            "8"
        },
        9 => {
            proof {
                reveal_strlit("9");
            }
            "9"
        },
        10 => {
            proof {
                reveal_strlit("A");
            }
            "A"
        },
        11 => {
            proof {
                reveal_strlit("B");
            }
            "B"
        },
        12 => {
            proof {
                reveal_strlit("C");
            }
            "C"
        },
        13 => {
            proof {
                reveal_strlit("D");
            }
            "D"
        },
        14 => {
            proof {
                reveal_strlit("E");
            }
            "E"
        },
        _ => {
            proof {
                reveal_strlit("F");
            }
            "F"
        },
    }
}

/// Writes a number out in the given radix.
fn fmt_radix(n: u128, radix: u128) -> (r: String)
    requires
        2 <= radix <= 16,
    ensures
        r@ == radix_digits(n as nat, radix as nat),
    decreases n,
{
    if n < radix {
        digit_text(n as u8).to_owned()
    } else {
        proof {
            assert(n / radix < n) by (nonlinear_arith)
                requires
                    2 <= radix <= n,
            ;
            assert(n % radix < radix) by (nonlinear_arith)
                requires
                    2 <= radix,
            ;
        }
        let head = fmt_radix(n / radix, radix);
        let r = concat(head.as_str(), digit_text((n % radix) as u8));
        proof {
            assert(r@ =~= radix_digits((n / radix) as nat, radix as nat).push(
                digit_char((n % radix) as int),
            ));
        }
        r
    }
}

/// Writes a number out in decimal, with a minus sign when it is negative.
pub(crate) fn fmt_decimal(v: i128) -> (r: String)
    ensures
        r@ == decimal_text(v as int),
{
    if v >= 0 {
        fmt_radix(v as u128, 10)
    } else {
        let size: u128 = (-(v + 1)) as u128 + 1;
        let digits = fmt_radix(size, 10);
        proof {
            reveal_strlit("-");
            assert("-"@ =~= seq!['-']);
        }
        concat("-", digits.as_str())
    }
}

/// Writes a number out in base two, without prefix or leading zeros.
pub(crate) fn fmt_binary(v: u8) -> (r: String)
    ensures
        r@ == radix_digits(v as nat, 2),
{
    fmt_radix(v as u128, 2)
}

/// Writes a number out in base sixteen with upper-case digits, without
/// prefix or leading zeros.
pub(crate) fn fmt_upper_hex(v: u8) -> (r: String)
    ensures
        r@ == radix_digits(v as nat, 16),
{
    fmt_radix(v as u128, 16)
}

/// Calls std's `String::from_utf8`. It succeeds exactly on valid UTF-8 and
/// then holds the characters that the bytes encode; otherwise the error comes
/// back as the text that it shows.
#[verifier::external_body]
pub(crate) fn string_from_utf8(bytes: Vec<u8>) -> (r: Result<String, String>)
    ensures
        match r {
            Ok(s) => valid_utf8(bytes@) && s@ == decode_utf8(bytes@),
            Err(m) => !valid_utf8(bytes@) && m@ == utf8_error_text(bytes@),
        },
{
    match String::from_utf8(bytes) {
        Ok(s) => Ok(s),
        Err(e) => Err(format!("{}", e)),
    }
}

/// The two texts one after the other.
pub fn concat(head: &str, tail: &str) -> (r: String)
    ensures
        r@ == head@ + tail@,
{
    head.to_owned().concat(tail)
}

} // verus!
