//! Decimal numerals: the specification of decimal notation for integers,
//! and verified conversions from machine integers to their numeral strings.

use vstd::prelude::*;
use vstd::string::StringExecFns;

verus! {

/// The digit character for a value below ten.
pub open spec fn digit_char(d: nat) -> char {
    if d == 0 {
        '0'
    } else if d == 1 {
        '1'
    } else if d == 2 {
        '2'
    } else if d == 3 {
        '3'
    } else if d == 4 {
        '4'
    } else if d == 5 {
        '5'
    } else if d == 6 {
        '6'
    } else if d == 7 {
        '7'
    } else if d == 8 {
        '8'
    } else {
        '9'
    }
}

/// The decimal numeral of a natural number, most significant digit first,
/// with no leading zeros (a single zero for zero itself).
pub open spec fn dec_str(n: nat) -> Seq<char>
    decreases n,
{
    if n < 10 {
        seq![digit_char(n)]
    } else {
        dec_str(n / 10).push(digit_char(n % 10))
    }
}

/// The decimal numeral of an integer: a minus sign before the numeral of the
/// magnitude when negative.
pub open spec fn int_str(n: int) -> Seq<char> {
    if n < 0 {
        seq!['-'] + dec_str((-n) as nat)
    } else {
        dec_str(n as nat)
    }
}

fn digit_str(d: u64) -> (r: &'static str)
    requires
        d < 10,
    ensures
        r@ == seq![digit_char(d as nat)],
{
    let r = match d {
        0u64 => "0",
        1u64 => "1",
        2u64 => "2",
        3u64 => "3",
        4u64 => "4",
        5u64 => "5",
        6u64 => "6",
        7u64 => "7",
        8u64 => "8",
        _ => "9",
    };
    proof {
        reveal_strlit("0");
        reveal_strlit("1");
        reveal_strlit("2");
        reveal_strlit("3");
        reveal_strlit("4");
        reveal_strlit("5");
        reveal_strlit("6");
        reveal_strlit("7");
        reveal_strlit("8");
        reveal_strlit("9");
        assert(r@ =~= seq![digit_char(d as nat)]);
    }
    r
}

/// The numeral string of an unsigned 64-bit integer.
pub fn u64_to_string(n: u64) -> (s: String)
    ensures
        s@ == dec_str(n as nat),
    decreases n,
{
    if n < 10 {
        String::from_str(digit_str(n))
    } else {
        let mut s = u64_to_string(n / 10);
        s.append(digit_str(n % 10));
        proof {
            assert(s@ =~= dec_str(n as nat));
        }
        s
    }
}

/// The numeral string of a signed 64-bit integer.
pub fn i64_to_string(n: i64) -> (s: String)
    ensures
        s@ == int_str(n as int),
{
    if n >= 0 {
        u64_to_string(n as u64)
    } else {
        let m: u64 = if n == i64::MIN {
            9223372036854775808u64
        } else {
            (-n) as u64
        };
        assert(m as int == -(n as int));
        let mut s = String::from_str("-");
        let digits = u64_to_string(m);
        s.append(digits.as_str());
        proof {
            reveal_strlit("-");
            assert(s@ =~= int_str(n as int));
        }
        s
    }
}

} // verus!
