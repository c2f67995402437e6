//! Real numbers as the 64 bits of an IEEE 754 double, read with integer arithmetic.
use crate::ident::ascii_digit;
use crate::tokens::{fraction_text, magnitude, real_text};
use vstd::arithmetic::div_mod::lemma_basic_div;
use vstd::arithmetic::power2::{
    lemma2_to64, lemma2_to64_rest, lemma_pow2_pos, lemma_pow2_strictly_increases, pow2,
};
use vstd::bits::{lemma_u64_shl_is_mul, lemma_u64_shr_is_div};
use vstd::prelude::*;

verus! {

/// The bits of the number one.
pub const ONE_BITS: u64 = 0x3ff0_0000_0000_0000;

/// The bits of the negative zero; the positive zero has no bit set.
pub const NEGATIVE_ZERO_BITS: u64 = 0x8000_0000_0000_0000;

/// The bit just above the fraction.
pub const HIDDEN_BIT: u64 = 0x10_0000_0000_0000;

/// A real number: the bits of the double, and its text as a Rust literal without suffix
/// (`0.5`, `-40.0`). The text of a number that is not finite is never used.
#[derive(Clone, Debug)]
pub struct Real {
    pub bits: u64,
    pub literal: String,
}

impl Real {
    /// The number equals one.
    pub open spec fn one(self) -> bool {
        self.bits == ONE_BITS
    }

    /// The number equals zero, of either sign.
    pub open spec fn zero(self) -> bool {
        self.bits == 0 || self.bits == NEGATIVE_ZERO_BITS
    }

    /// The number can be written into source text.
    pub open spec fn writable(self) -> bool {
        biased_exponent(self.bits) != 0x7ff && real_text(self.literal@)
    }

    /// Tells whether the number equals one.
    pub fn is_one(&self) -> (r: bool)
        ensures
            r == self.one(),
    {
        self.bits == ONE_BITS
    }

    /// Tells whether the number equals zero, of either sign.
    pub fn is_zero(&self) -> (r: bool)
        ensures
            r == self.zero(),
    {
        self.bits == 0 || self.bits == NEGATIVE_ZERO_BITS
    }

    /// Tells whether the number can be written into source text.
    pub fn is_writable(&self) -> (r: bool)
        ensures
            r == self.writable(),
    {
        (self.bits / HIDDEN_BIT) % 0x800 != 0x7ff && is_real_text(self.literal.as_str())
    }
}

/// The exponent field of a double.
pub open spec fn biased_exponent(bits: u64) -> nat {
    ((bits / HIDDEN_BIT) % 0x800) as nat
}

/// The fraction field of a double.
pub open spec fn fraction_field(bits: u64) -> nat {
    (bits % HIDDEN_BIT) as nat
}

/// The bits stand for no number.
pub open spec fn not_a_number(bits: u64) -> bool {
    biased_exponent(bits) == 0x7ff && fraction_field(bits) != 0
}

/// The integer part of the magnitude of a double; for an infinite one, a number too large for
/// 64 bits.
pub open spec fn whole_part(bits: u64) -> nat {
    let significand = HIDDEN_BIT as nat + fraction_field(bits);
    let exponent = biased_exponent(bits);
    if exponent >= 1075 {
        significand * pow2((exponent - 1075) as nat)
    } else {
        significand / pow2((1075 - exponent) as nat)
    }
}

/// A double converted to an unsigned integer: towards zero, and to the nearest bound where the
/// result does not fit; zero for what is no number.
pub open spec fn saturated(bits: u64) -> nat {
    if bits >= NEGATIVE_ZERO_BITS || not_a_number(bits) {
        0
    } else if whole_part(bits) <= u64::MAX {
        whole_part(bits)
    } else {
        u64::MAX as nat
    }
}

/// Converts a double, given by its bits, to an unsigned integer as an `as` cast does.
pub fn real_to_u64(bits: u64) -> (r: u64)
    ensures
        r == saturated(bits),
{
    let exponent: u64 = (bits / HIDDEN_BIT) % 0x800;
    let fraction: u64 = bits % HIDDEN_BIT;
    let significand: u64 = HIDDEN_BIT + fraction;
    if bits >= NEGATIVE_ZERO_BITS || (exponent == 0x7ff && fraction != 0) {
        return 0;
    }
    proof {
        lemma2_to64();
        lemma2_to64_rest();
    }
    if exponent < 1023 {
        proof {
            let k = (1075 - exponent) as nat;
            if k > 53 {
                lemma_pow2_strictly_increases(53, k);
            }
            lemma_basic_div(significand as int, pow2(k) as int);
        }
        0
    } else if exponent < 1075 {
        let k: u64 = 1075 - exponent;
        proof {
            lemma_u64_shr_is_div(significand, k);
            lemma_pow2_pos(k as nat);
        }
        significand >> k
    } else if exponent < 1087 {
        let k: u64 = exponent - 1075;
        proof {
            if k < 11 {
                lemma_pow2_strictly_increases(k as nat, 11);
            }
            assert(significand * pow2(k as nat) <= 0x1f_ffff_ffff_ffff * 0x800)
                by (nonlinear_arith)
                requires
                    0 <= significand <= 0x1f_ffff_ffff_ffff,
                    0 <= pow2(k as nat) <= 0x800,
            ;
            lemma_u64_shl_is_mul(significand, k);
        }
        significand << k
    } else {
        proof {
            let k = (exponent - 1075) as nat;
            if k > 12 {
                lemma_pow2_strictly_increases(12, k);
            }
            assert(significand * pow2(k) >= 0x10_0000_0000_0000 * 0x1000) by (nonlinear_arith)
                requires
                    significand >= 0x10_0000_0000_0000,
                    pow2(k) >= 0x1000,
            ;
        }
        u64::MAX
    }
}

/// Tells whether a text is a real number in decimal notation without exponent or suffix.
pub fn is_real_text(text: &str) -> (r: bool)
    ensures
        r == real_text(text@),
{
    let ghost body = magnitude(text@);
    let ghost sign = text@.len() - body.len();
    let mut start: bool = true;
    let mut digits_before: bool = false;
    let mut point: bool = false;
    let mut digits_after: bool = false;
    let ghost mut at: int = 0;
    for c in it: text.chars()
        invariant
            it.seq() == text@,
            body == magnitude(text@),
            sign == text@.len() - body.len(),
            start == (it.index() == 0),
            !point ==> forall|i: int|
                0 <= i < it.index() - sign ==> ascii_digit(#[trigger] body[i]),
            !point ==> digits_before == (it.index() - sign > 0) && !digits_after,
            point ==> 0 < at < it.index() - sign && body[at] == '.',
            point ==> forall|i: int|
                0 <= i < it.index() - sign && i != at ==> ascii_digit(#[trigger] body[i]),
            point ==> digits_after == (at < it.index() - sign - 1),
    {
        let ghost k = it.index() - sign;
        assert(k >= 0 ==> body[k] == c);
        if start && c == '-' {
            start = false;
        } else if '0' <= c && c <= '9' {
            start = false;
            if point {
                digits_after = true;
            } else {
                digits_before = true;
            }
        } else if c == '.' && digits_before && !point {
            start = false;
            point = true;
            proof {
                at = k;
            }
        } else {
            proof {
                if fraction_text(body) {
                    let p = choose|p: int|
                        0 < p < body.len() - 1 && #[trigger] body[p] == '.' && forall|i: int|
                            0 <= i < body.len() && i != p ==> ascii_digit(#[trigger] body[i]);
                    assert(body[k] == c);
                    assert(k == p);
                    if point {
                        assert(body[at] == '.');
                    } else {
                        assert(body[0] == body[0]);
                    }
                }
            }
            return false;
        }
    }
    proof {
        if fraction_text(body) {
            let p = choose|p: int|
                0 < p < body.len() - 1 && #[trigger] body[p] == '.' && forall|i: int|
                    0 <= i < body.len() && i != p ==> ascii_digit(#[trigger] body[i]);
            assert(body[p] == '.');
        }
    }
    point && digits_after
}

} // verus!
