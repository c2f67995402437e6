//! How doubles are read from their bits.
use crate::double::{biased_exponent, fraction_field, saturated, Real};
use crate::ident::ascii_digit;
use crate::tokens::{fraction_text, literal_tokens, magnitude, real_text, Gap, Token};
use vstd::arithmetic::div_mod::lemma_fundamental_div_mod;
use vstd::arithmetic::power2::{
    lemma2_to64, lemma2_to64_rest, lemma_pow2_pos, lemma_pow2_strictly_increases, pow2,
};
use vstd::prelude::*;

verus! {

/// The bits of the double with the given sign, exponent field and fraction field.
pub open spec fn double_of(negative: bool, exponent: nat, fraction: nat) -> nat {
    exponent * 0x10_0000_0000_0000 + fraction + if negative {
        0x8000_0000_0000_0000nat
    } else {
        0
    }
}

proof fn lemma_fields(negative: bool, exponent: nat, fraction: nat)
    requires
        exponent < 0x800,
        fraction < 0x10_0000_0000_0000,
    ensures
        double_of(negative, exponent, fraction) <= u64::MAX,
        double_of(negative, exponent, fraction) >= 0x8000_0000_0000_0000 <==> negative,
        biased_exponent(double_of(negative, exponent, fraction) as u64) == exponent,
        fraction_field(double_of(negative, exponent, fraction) as u64) == fraction,
{
    let bits = double_of(negative, exponent, fraction);
    let top: nat = if negative {
        0x800
    } else {
        0
    };
    assert(bits == (top + exponent) * 0x10_0000_0000_0000 + fraction);
    assert(bits as int / 0x10_0000_0000_0000 == top + exponent);
    assert(bits as int % 0x10_0000_0000_0000 == fraction);
}

/// A double of magnitude `(2^52 + fraction) * 2^(exponent - 1075)` converts to the largest integer
/// not above it, or to the largest of 64 bits where that is smaller.
pub proof fn law_conversion_rounds_down(exponent: nat, fraction: nat)
    requires
        0 < exponent < 0x7ff,
        fraction < 0x10_0000_0000_0000,
    ensures
        ({
            let r = saturated(double_of(false, exponent, fraction) as u64);
            let significand = 0x10_0000_0000_0000 + fraction;
            &&& exponent < 1075 ==> {
                let unit = pow2((1075 - exponent) as nat);
                r * unit <= significand < (r + 1) * unit
            }
            &&& exponent >= 1075 ==> {
                let magnitude = significand * pow2((exponent - 1075) as nat);
                r == if magnitude <= u64::MAX {
                    magnitude
                } else {
                    u64::MAX as nat
                }
            }
        }),
{
    lemma_fields(false, exponent, fraction);
    let significand = 0x10_0000_0000_0000 + fraction;
    if exponent < 1075 {
        let unit = pow2((1075 - exponent) as nat);
        lemma_pow2_pos((1075 - exponent) as nat);
        lemma_fundamental_div_mod(significand as int, unit as int);
        let q = significand as int / unit as int;
        let rest = significand as int % unit as int;
        assert(q <= significand && q * unit <= significand < (q + 1) * unit) by (nonlinear_arith)
            requires
                unit > 0,
                significand >= 0,
                significand == unit * q + rest,
                0 <= rest < unit,
        ;
    }
}

/// Negative numbers, numbers below one of the least exponent, and what is no number convert to
/// zero; infinity converts to the largest integer.
pub proof fn law_conversion_of_other_doubles(negative: bool, exponent: nat, fraction: nat)
    requires
        exponent < 0x800,
        fraction < 0x10_0000_0000_0000,
    ensures
        negative ==> saturated(double_of(negative, exponent, fraction) as u64) == 0,
        exponent == 0 ==> saturated(double_of(negative, exponent, fraction) as u64) == 0,
        exponent == 0x7ff && fraction != 0 ==> saturated(
            double_of(negative, exponent, fraction) as u64,
        ) == 0,
        exponent == 0x7ff && fraction == 0 && !negative ==> saturated(
            double_of(negative, exponent, fraction) as u64,
        ) == u64::MAX,
{
    lemma_fields(negative, exponent, fraction);
    lemma2_to64();
    lemma2_to64_rest();
    if exponent == 0 {
        lemma_pow2_strictly_increases(53, 1075);
        let significand = 0x10_0000_0000_0000 + fraction;
        vstd::arithmetic::div_mod::lemma_basic_div(significand as int, pow2(1075) as int);
    }
    if exponent == 0x7ff && fraction == 0 && !negative {
        let k = (0x7ff - 1075) as nat;
        lemma_pow2_strictly_increases(12, k);
        assert(0x10_0000_0000_0000 * pow2(k) > u64::MAX) by (nonlinear_arith)
            requires
                pow2(k) > 0x1000,
        ;
    }
}

/// A number is one exactly if its exponent is that of one and its fraction is empty, without sign;
/// it is zero exactly if nothing but its sign is set; it can be written exactly if its exponent is
/// not the largest and its text is a decimal one.
pub proof fn law_one_zero_and_finite(x: Real, negative: bool, exponent: nat, fraction: nat)
    requires
        exponent < 0x800,
        fraction < 0x10_0000_0000_0000,
        x.bits == double_of(negative, exponent, fraction),
    ensures
        x.one() <==> !negative && exponent == 1023 && fraction == 0,
        x.zero() <==> exponent == 0 && fraction == 0,
        x.writable() <==> exponent != 0x7ff && real_text(x.literal@),
{
    lemma_fields(negative, exponent, fraction);
}

/// Digits only, and at least one.
pub open spec fn digits(s: Seq<char>) -> bool {
    s.len() > 0 && forall|i: int| 0 <= i < s.len() ==> '0' <= #[trigger] s[i] <= '9'
}

/// Digits, a point and digits make a decimal text, with or without a minus sign before them; the
/// sign becomes a token of its own.
pub proof fn law_decimal_texts_are_written(before: Seq<char>, after: Seq<char>)
    requires
        digits(before),
        digits(after),
    ensures
        real_text(before + seq!['.'] + after),
        real_text(seq!['-'] + before + seq!['.'] + after),
        literal_tokens(before + seq!['.'] + after) == seq![
            Token::Literal(before + seq!['.'] + after),
        ],
        literal_tokens(seq!['-'] + before + seq!['.'] + after) == seq![
            Token::Punct('-', Gap::Alone),
            Token::Literal(before + seq!['.'] + after),
        ],
{
    let body = before + seq!['.'] + after;
    let negative = seq!['-'] + before + seq!['.'] + after;
    assert(negative.skip(1) =~= body);
    let point = before.len() as int;
    assert(body[point] == '.');
    assert forall|i: int| 0 <= i < body.len() && i != point implies ascii_digit(
        #[trigger] body[i],
    ) by {
        if i < point {
            assert(body[i] == before[i]);
        } else {
            assert(body[i] == after[i - point - 1]);
        }
    }
    assert(fraction_text(body));
    assert(body[0] == before[0]);
    assert(magnitude(body) == body);
    assert(magnitude(negative) == body);
}

/// A decimal text is digits, a point and digits, after a minus sign or not.
pub proof fn law_decimal_texts_have_one_point(s: Seq<char>) -> (parts: (Seq<char>, Seq<char>))
    requires
        real_text(s),
    ensures
        digits(parts.0),
        digits(parts.1),
        s == parts.0 + seq!['.'] + parts.1 || s == seq!['-'] + parts.0 + seq!['.'] + parts.1,
{
    let body = magnitude(s);
    let point = choose|point: int|
        0 < point < body.len() - 1 && #[trigger] body[point] == '.' && forall|i: int|
            0 <= i < body.len() && i != point ==> ascii_digit(#[trigger] body[i]);
    let before = body.take(point);
    let after = body.skip(point + 1);
    assert forall|i: int| 0 <= i < before.len() implies '0' <= #[trigger] before[i] <= '9' by {
        assert(ascii_digit(body[i]));
    }
    assert forall|i: int| 0 <= i < after.len() implies '0' <= #[trigger] after[i] <= '9' by {
        assert(ascii_digit(body[i + point + 1]));
    }
    assert(body =~= before + seq!['.'] + after);
    if s != body {
        assert(s =~= seq!['-'] + body);
        assert(seq!['-'] + body =~= seq!['-'] + before + seq!['.'] + after);
    }
    (before, after)
}

} // verus!
