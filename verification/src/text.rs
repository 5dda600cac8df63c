//! Text helpers: decimal numbers, UTF-8 input and comparison.

use vstd::prelude::*;
use vstd::string::StringExecFns;

verus! {

/// A decimal digit as a character.
pub open spec fn digit(n: nat) -> char {
    (48 + n % 10) as char
}

/// A number in decimal.
pub open spec fn decimal(n: nat) -> Seq<char>
    decreases n,
{
    if n < 10 {
        seq![digit(n)]
    } else {
        decimal(n / 10).push(digit(n))
    }
}

/// A decimal digit as text.
fn digit_text(n: u64) -> (r: &'static str)
    requires
        n < 10,
    ensures
        r@ == seq![digit(n as nat)],
{
    proof {
        reveal_strlit("0");
        reveal_strlit("1");
        reveal_strlit("2");
        reveal_strlit("3");
        reveal_strlit("4");
        reveal_strlit("5");
        reveal_strlit("6");
        reveal_strlit("7");
        reveal_strlit("8");
        reveal_strlit("9");
    }
    match n {
        0 => "0",
        1 => "1",
        2 => "2",
        3 => "3",
        4 => "4",
        5 => "5",
        6 => "6",
        7 => "7",
        8 => "8",
        _ => "9",
    }
}

/// A number in decimal.
pub(crate) fn decimal_text(n: u64) -> (r: String)
    ensures
        r@ == decimal(n as nat),
    decreases n,
{
    if n < 10 {
        return digit_text(n).to_owned();
    }
    let mut text = decimal_text(n / 10);
    text.append(digit_text(n % 10));
    text
}

/// `std::str::from_utf8`: the text whose encoding the octets are, and none
/// exactly where they are no valid UTF-8.
#[verifier::external_body]
pub(crate) fn utf8_text(bytes: &[u8]) -> (r: Option<&str>)
    ensures
        match r {
            Some(s) => vstd::utf8::valid_utf8(bytes@) && s@ == vstd::utf8::decode_utf8(bytes@),
            None => !vstd::utf8::valid_utf8(bytes@),
        },
{
    std::str::from_utf8(bytes).ok()
}

/// Whether two texts are the same.
pub(crate) fn same_text(a: &str, b: &str) -> (r: bool)
    ensures
        r == (a@ == b@),
{
    a.to_owned() == b.to_owned()
}

/// Decimals are what they are read as: one more digit is ten times the number
/// and the digit, the digits are `0` to `9` in their order, and no number but
/// zero starts with a zero.
pub proof fn law_decimals_are_positional(n: nat, d: nat)
    requires
        d < 10,
    ensures
        decimal(d) == seq![(0x30 + d) as char],
        n > 0 ==> decimal(n * 10 + d) == decimal(n).push((0x30 + d) as char),
        n > 0 ==> decimal(n)[0] != '0',
        decimal(n).len() > 0,
    decreases n,
{
    assert((n * 10 + d) / 10 == n && (n * 10 + d) % 10 == d);
    if n >= 10 {
        law_decimals_are_positional(n / 10, n % 10);
    }
}

} // verus!
