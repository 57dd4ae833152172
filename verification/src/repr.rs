//! The tagged 64-bit value representation shared by the generated code and
//! the runtime: numbers carry their value doubled, booleans are 3 and 7, nil
//! is 1, and a tuple is its heap address plus one.

use vstd::prelude::*;
use crate::syntax::{Expr, ExprV};

verus! {

/// The smallest representable number: -(2^62).
pub const NUM_MIN: i64 = -4611686018427387904;

/// The largest representable number: 2^62 - 1.
pub const NUM_MAX: i64 = 4611686018427387903;

/// The encoded value holds a number exactly when its lowest bit is clear.
pub open spec fn is_number_repr(v: i64) -> bool {
    v & 1 == 0
}

/// The encoded values of `false` and `true`.
pub open spec fn is_bool_repr(v: i64) -> bool {
    v == 3 || v == 7
}

/// The encoded value of nil.
pub open spec fn is_nil_repr(v: i64) -> bool {
    v == 1
}

/// A tuple pointer: low two bits are 01 and the value is not nil.
pub open spec fn is_tuple_repr(v: i64) -> bool {
    v & 3 == 1 && v != 1
}

/// The values the generated code can produce: every value is a number, a
/// boolean, nil, or a tuple pointer.
pub open spec fn is_encoded_value(v: i64) -> bool {
    is_number_repr(v) || is_bool_repr(v) || is_nil_repr(v) || is_tuple_repr(v)
}

/// What the runtime reads back from a number encoding: an arithmetic shift
/// right by one, which is division by two rounded toward minus infinity.
pub open spec fn decode_number(v: i64) -> int {
    v as int / 2
}

/// An expression that stands for a compile-time constant value: an in-range
/// number literal or a boolean literal.
pub open spec fn is_const_expr(e: ExprV) -> bool {
    match e {
        ExprV::Number(n) => NUM_MIN <= n <= NUM_MAX,
        ExprV::Bool(_) => true,
        _ => false,
    }
}

/// The encoded form of a constant expression.
pub open spec fn const_repr(e: ExprV) -> int {
    match e {
        ExprV::Number(n) => 2 * n,
        ExprV::Bool(b) => if b { 7int } else { 3int },
        _ => 0int,
    }
}

/// The internal representation of a constant value.
pub fn repr(e: &Expr) -> (r: i64)
    requires
        is_const_expr(e@),
    ensures
        r == const_repr(e@),
{
    match e {
        Expr::Number(n) => *n * 2,
        Expr::Bool(b) => {
            if *b {
                7
            } else {
                3
            }
        },
        _ => 0,
    }
}

/// The encoded value of `true`.
pub fn repr_true() -> (r: i64)
    ensures
        r == 7,
{
    repr(&Expr::Bool(true))
}

/// The encoded value of `false`.
pub fn repr_false() -> (r: i64)
    ensures
        r == 3,
{
    repr(&Expr::Bool(false))
}

/// The encoded value of an in-range number.
pub fn repr_n(n: i64) -> (r: i64)
    requires
        NUM_MIN <= n <= NUM_MAX,
    ensures
        r == 2 * n,
{
    repr(&Expr::Number(n))
}

/// Every well-formed number within the representable range decodes, by the
/// runtime's arithmetic shift, to the number itself; and its encoding is
/// tagged as a number.
pub proof fn lemma_number_round_trip(n: i64)
    requires
        NUM_MIN <= n <= NUM_MAX,
    ensures
        is_number_repr((2 * n) as i64),
        decode_number((2 * n) as i64) == n,
{
    let v: i64 = (2 * n) as i64;
    assert(v & 1 == 0) by (bit_vector)
        requires
            v == 2 * n,
    ;
    assert(v as int / 2 == n);
}

/// Of the four tag classes, exactly one holds of any value the generated
/// code produces.
pub proof fn lemma_tags_exclusive(v: i64)
    requires
        is_encoded_value(v),
    ensures
        is_number_repr(v) <==> !(is_bool_repr(v) || is_nil_repr(v) || is_tuple_repr(v)),
        is_bool_repr(v) ==> !(is_number_repr(v) || is_nil_repr(v) || is_tuple_repr(v)),
        is_nil_repr(v) ==> !(is_number_repr(v) || is_bool_repr(v) || is_tuple_repr(v)),
        is_tuple_repr(v) ==> !(is_number_repr(v) || is_bool_repr(v) || is_nil_repr(v)),
{
    assert((v & 1 == 0 ==> v & 3 != 1) && (v & 3 == 1 ==> v & 1 != 0) && (3i64 & 1 == 1) && (
    7i64 & 1 == 1) && (1i64 & 1 == 1) && (3i64 & 3 == 3) && (7i64 & 3 == 3) && (1i64 & 3 == 1))
        by (bit_vector);
}

} // verus!

verus! {

/// A decimal digit.
pub open spec fn is_digit(c: char) -> bool {
    '0' <= c && c <= '9'
}

/// The value of a digit character.
pub open spec fn digit_of(c: char) -> int {
    c as int - '0' as int
}

/// A non-empty run of decimal digits.
pub open spec fn all_digits(s: Seq<char>) -> bool {
    s.len() > 0 && forall|i: int| 0 <= i < s.len() ==> is_digit(#[trigger] s[i])
}

/// The value of a digit run, most significant digit first.
pub open spec fn digits_val(s: Seq<char>) -> nat
    decreases s.len(),
{
    if s.len() == 0 {
        0
    } else {
        digits_val(s.drop_last()) * 10 + (if digit_of(s.last()) >= 0 {
            digit_of(s.last()) as nat
        } else {
            0
        })
    }
}

pub proof fn lemma_digits_val_monotone(s: Seq<char>, i: int)
    requires
        0 <= i <= s.len(),
    ensures
        digits_val(s.take(i)) <= digits_val(s),
    decreases s.len() - i,
{
    if i < s.len() {
        lemma_digits_val_monotone(s, i + 1);
        assert(s.take(i + 1).drop_last() =~= s.take(i));
        assert(digits_val(s.take(i + 1)) == digits_val(s.take(i)) * 10 + (if digit_of(
            s.take(i + 1).last(),
        ) >= 0 {
            digit_of(s.take(i + 1).last()) as nat
        } else {
            0
        }));
    } else {
        assert(s.take(i) =~= s);
    }
}

/// The numeral part of an input, past an optional sign.
pub open spec fn input_digits(t: Seq<char>) -> Seq<char> {
    if t.len() > 0 && (t[0] == '-' || t[0] == '+') {
        t.subrange(1, t.len() as int)
    } else {
        t
    }
}

/// Whether an input is a signed decimal numeral.
pub open spec fn is_signed_numeral(t: Seq<char>) -> bool {
    all_digits(input_digits(t))
}

/// The value of a signed decimal numeral.
pub open spec fn signed_numeral_val(t: Seq<char>) -> int {
    if t.len() > 0 && t[0] == '-' {
        -(digits_val(input_digits(t)) as int)
    } else {
        digits_val(input_digits(t)) as int
    }
}

/// What the runtime's input conversion returns: the encodings of `true` and
/// `false`, or the doubled value of a decimal number within the
/// representable range, or nothing.
pub open spec fn spec_parse_input(t: Seq<char>) -> Option<u64> {
    if t == "true"@ {
        Some(7u64)
    } else if t == "false"@ {
        Some(3u64)
    } else if is_signed_numeral(t) && NUM_MIN <= signed_numeral_val(t) <= NUM_MAX {
        Some((((2 * signed_numeral_val(t)) as i64) as u64))
    } else {
        None
    }
}

/// The runtime's conversion of the program input to its encoded form:
/// `true`, `false`, or a decimal number within the representable range.
#[verifier::loop_isolation(false)]
pub fn parse_input(input: &str) -> (r: Option<u64>)
    ensures
        r == spec_parse_input(input@),
{
    if string_eq_lit(input, "true") {
        return Some(7u64);
    }
    if string_eq_lit(input, "false") {
        return Some(3u64);
    }
    let n = input.unicode_len();
    let ghost t = input@;
    let mut i: usize = 0;
    let mut negative = false;
    if n > 0 {
        let c0 = input.get_char(0);
        if c0 == '-' {
            negative = true;
            i = 1;
        } else if c0 == '+' {
            i = 1;
        }
    }
    let ghost digits = input_digits(t);
    proof {
        assert(digits =~= t.subrange(i as int, t.len() as int));
    }
    if i >= n {
        // No digits at all: the empty run is not a numeral.
        proof {
            assert(!is_signed_numeral(t));
        }
        return None;
    }
    let mut m: u64 = 0;
    let mut j: usize = i;
    while j < n
        invariant
            i <= j <= n,
            n == t.len(),
            i + digits.len() == n,
            m as nat == digits_val(digits.take(j - i)),
            m <= 0x4000_0000_0000_0000,
            forall|k: int| 0 <= k < j - i ==> is_digit(#[trigger] digits[k]),
        decreases n - j,
    {
        let c = input.get_char(j);
        if !(('0' <= c) && (c <= '9')) {
            proof {
                assert(digits[j - i] == c);
                assert(!is_digit(digits[j - i]));
                assert(!all_digits(digits));
            }
            return None;
        }
        let d: u64 = (c as u32 - '0' as u32) as u64;
        proof {
            assert(digits[j - i] == c);
            assert(d as int == digit_of(c));
        }
        if m > 461168601842738790u64 || (m == 461168601842738790u64 && d > 4) {
            // The run already exceeds the representable magnitude; more
            // digits only increase it.
            proof {
                assert(digits.take(j - i + 1).drop_last() =~= digits.take(j - i));
                assert(digits_val(digits.take(j - i + 1)) > 0x4000_0000_0000_0000);
                lemma_digits_val_monotone(digits, j - i + 1);
            }
            return None;
        }
        m = m * 10 + d;
        proof {
            assert(digits.take(j - i + 1).drop_last() =~= digits.take(j - i));
        }
        j = j + 1;
    }
    proof {
        assert(digits.take(n - i) =~= digits);
    }
    if negative {
        if m > 4611686018427387904u64 {
            return None;
        }
        let v: i64 = if m == 4611686018427387904u64 {
            NUM_MIN
        } else {
            -(m as i64)
        };
        proof {
            assert(signed_numeral_val(t) == -(m as int));
        }
        let result: u64 = (v * 2) as u64;
        proof {
            assert(result == (((2 * signed_numeral_val(t)) as i64) as u64));
        }
        Some(result)
    } else {
        if m > 4611686018427387903u64 {
            return None;
        }
        let v: i64 = m as i64;
        Some((v * 2) as u64)
    }
}

fn string_eq_lit(s: &str, lit: &str) -> (r: bool)
    ensures
        r == (s@ == lit@),
{
    let a = s.to_owned();
    let b = lit.to_owned();
    a == b
}

} // verus!
