//! An angle in degrees, held as the 32 bits of an IEEE 754 binary32
//! number, and the spelling of its magnitude with three decimal places.
//!
//! No rounding error enters anywhere: a finite binary32 number is a whole
//! significand times a power of two, so one thousand times its magnitude is
//! an exact fraction, and the text shows the whole number nearest to that
//! fraction.

use vstd::prelude::*;
use vstd::string::*;
use vstd::arithmetic::div_mod::{lemma_basic_div, lemma_fundamental_div_mod, lemma_small_mod};
use vstd::arithmetic::power2::{
    lemma2_to64,
    lemma2_to64_rest,
    lemma_pow2_adds,
    lemma_pow2_pos,
    lemma_pow2_strictly_increases,
    lemma_pow2_unfold,
    pow2,
};
use vstd::bits::lemma_u64_shl_is_mul;
use crate::digits::{decimal, decimal_value, push_decimal, push_three_digits, three_digits};
use crate::digits::{lemma_decimal_reads_back, lemma_three_digits_read_back};

verus! {

/// The quotient `n / d` rounded to the nearest whole number; where two are
/// equally near, the even one.
pub open spec fn round_half_even(n: nat, d: nat) -> nat {
    let q = n / d;
    let r = n % d;
    if 2 * r < d || (2 * r == d && q % 2 == 0) {
        q
    } else {
        q + 1
    }
}

/// Whether `t` is the whole number nearest to the quotient `n / d`, and the
/// even one of the two where the quotient lies halfway between them. The
/// distance is measured in units of `1 / d`.
pub open spec fn is_nearest_even(n: nat, d: nat, t: nat) -> bool {
    let distance = if n >= t * d {
        n - t * d
    } else {
        t * d - n
    };
    2 * distance < d || (2 * distance == d && t % 2 == 0)
}

/// Rounding gives the nearest whole number, the even one at a tie, and no
/// other whole number is that.
pub proof fn lemma_round_half_even_nearest(n: nat, d: nat)
    requires
        d > 0,
    ensures
        is_nearest_even(n, d, round_half_even(n, d)),
        forall|t: nat| is_nearest_even(n, d, t) ==> t == round_half_even(n, d),
{
    let q = n / d;
    let r = n % d;
    lemma_fundamental_div_mod(n as int, d as int);
    assert(n == d * q + r);
    assert(0 <= r < d);
    assert(q * d == d * q) by (nonlinear_arith);
    assert((q + 1) * d == d * q + d) by (nonlinear_arith);
    assert forall|t: nat| is_nearest_even(n, d, t) implies t == round_half_even(n, d) by {
        if t < q {
            assert(t * d <= d * q - d) by (nonlinear_arith)
                requires
                    t + 1 <= q,
                    d > 0,
            ;
        } else if t > q + 1 {
            assert(t * d >= d * q + 2 * d) by (nonlinear_arith)
                requires
                    t >= q + 2,
                    d > 0,
            ;
        }
    }
}

/// An angle in degrees: the bit pattern of a binary32 number. Two values are
/// equal when their bits are.
#[derive(Clone, Copy, Debug, PartialEq, Eq, Structural)]
pub struct Degrees {
    pub bits: u32,
}

/// Why a bit pattern stands for no finite number.
#[derive(Clone, Copy, Debug, PartialEq, Eq, Structural)]
pub enum FormatError {
    /// The pattern is a NaN.
    NotANumber,
    /// The pattern is positive or negative infinity.
    Infinite,
}

impl Degrees {
    /// Whether the sign bit is set.
    pub open spec fn sign_negative(&self) -> bool {
        self.bits >= 0x8000_0000
    }

    /// The eight exponent bits, as a number.
    pub open spec fn exponent_field(&self) -> nat {
        (self.bits as nat / 0x80_0000) % 0x100
    }

    /// The twenty-three fraction bits, as a number.
    pub open spec fn fraction_field(&self) -> nat {
        self.bits as nat % 0x80_0000
    }

    /// Whether the value is a NaN.
    pub open spec fn spec_is_nan(&self) -> bool {
        self.exponent_field() == 255 && self.fraction_field() != 0
    }

    /// Whether the value is positive or negative infinity.
    pub open spec fn spec_is_infinite(&self) -> bool {
        self.exponent_field() == 255 && self.fraction_field() == 0
    }

    /// Whether the value is a number: zero, subnormal or normal.
    pub open spec fn spec_is_finite(&self) -> bool {
        self.exponent_field() < 255
    }

    /// The significand of a finite value, as a whole number: the fraction
    /// bits, with the implicit leading bit for a normal number.
    pub open spec fn significand(&self) -> nat {
        if self.exponent_field() == 0 {
            self.fraction_field()
        } else {
            0x80_0000 + self.fraction_field()
        }
    }

    /// The power of two that scales the significand: the magnitude of a
    /// finite value is `significand() * 2^exponent()`.
    pub open spec fn exponent(&self) -> int {
        if self.exponent_field() == 0 {
            -149
        } else {
            self.exponent_field() - 150
        }
    }

    /// Whether the value is zero, of either sign.
    pub open spec fn is_zero(&self) -> bool {
        self.exponent_field() == 0 && self.fraction_field() == 0
    }

    /// Whether the value compares greater than or equal to zero. Negative
    /// zero does; a NaN does not.
    pub open spec fn spec_at_least_zero(&self) -> bool {
        !self.spec_is_nan() && (!self.sign_negative() || self.is_zero())
    }

    /// Whether the value compares less than zero. Neither zero nor a NaN
    /// does.
    pub open spec fn below_zero(&self) -> bool {
        !self.spec_is_nan() && self.sign_negative() && !self.is_zero()
    }

    /// Numerator of one thousand times the magnitude of a finite value.
    pub open spec fn scaled_numerator(&self) -> nat {
        if self.exponent() >= 0 {
            1000 * (self.significand() * pow2(self.exponent() as nat))
        } else {
            1000 * self.significand()
        }
    }

    /// Denominator of one thousand times the magnitude of a finite value.
    pub open spec fn scaled_denominator(&self) -> nat {
        if self.exponent() >= 0 {
            1
        } else {
            pow2((-self.exponent()) as nat)
        }
    }

    /// The magnitude of a finite value in thousandths of a degree, rounded
    /// to the nearest whole number, ties to even.
    pub open spec fn thousandths(&self) -> nat {
        round_half_even(self.scaled_numerator(), self.scaled_denominator())
    }

    /// The magnitude as text, without a sign: the whole degrees, a point and
    /// exactly three decimal places; `NaN` and `inf` for what is no number.
    pub open spec fn magnitude_text(&self) -> Seq<char> {
        if self.spec_is_nan() {
            seq!['N', 'a', 'N']
        } else if self.spec_is_infinite() {
            seq!['i', 'n', 'f']
        } else {
            decimal(self.thousandths() / 1000) + seq!['.'] + three_digits(
                self.thousandths() % 1000,
            )
        }
    }

    /// The angle with the given bit pattern.
    pub fn from_bits(bits: u32) -> (d: Degrees)
        ensures
            d == (Degrees { bits }),
    {
        Degrees { bits }
    }

    /// The angle with the given bit pattern, if that is a finite number.
    pub fn try_from_bits(bits: u32) -> (r: Result<Degrees, FormatError>)
        ensures
            r == (if (Degrees { bits }).spec_is_nan() {
                Err(FormatError::NotANumber)
            } else if (Degrees { bits }).spec_is_infinite() {
                Err(FormatError::Infinite)
            } else {
                Ok(Degrees { bits })
            }),
    {
        let d = Degrees { bits };
        if d.is_nan() {
            Err(FormatError::NotANumber)
        } else if d.is_infinite() {
            Err(FormatError::Infinite)
        } else {
            Ok(d)
        }
    }

    /// Whether the value is a NaN.
    #[verifier::when_used_as_spec(spec_is_nan)]
    pub fn is_nan(&self) -> (r: bool)
        ensures
            r == self.spec_is_nan(),
    {
        (self.bits / 0x80_0000) % 0x100 == 255 && self.bits % 0x80_0000 != 0
    }

    /// Whether the value is positive or negative infinity.
    #[verifier::when_used_as_spec(spec_is_infinite)]
    pub fn is_infinite(&self) -> (r: bool)
        ensures
            r == self.spec_is_infinite(),
    {
        (self.bits / 0x80_0000) % 0x100 == 255 && self.bits % 0x80_0000 == 0
    }

    /// Whether the value is a number.
    #[verifier::when_used_as_spec(spec_is_finite)]
    pub fn is_finite(&self) -> (r: bool)
        ensures
            r == self.spec_is_finite(),
    {
        (self.bits / 0x80_0000) % 0x100 < 255
    }

    /// Whether the value compares greater than or equal to zero.
    #[verifier::when_used_as_spec(spec_at_least_zero)]
    pub fn at_least_zero(&self) -> (r: bool)
        ensures
            r == self.spec_at_least_zero(),
    {
        let field = (self.bits / 0x80_0000) % 0x100;
        let fraction = self.bits % 0x80_0000;
        if field == 255 && fraction != 0 {
            false
        } else {
            self.bits < 0x8000_0000 || (field == 0 && fraction == 0)
        }
    }

    /// Appends the magnitude to `out`.
    pub fn push_magnitude(&self, out: &mut String)
        ensures
            final(out)@ == old(out)@ + self.magnitude_text(),
    {
        let field = (self.bits / 0x80_0000) % 0x100;
        let fraction = self.bits % 0x80_0000;
        if field == 255 {
            proof {
                reveal_strlit("NaN");
                reveal_strlit("inf");
            }
            if fraction != 0 {
                out.append("NaN");
            } else {
                out.append("inf");
            }
            assert(final(out)@ =~= old(out)@ + self.magnitude_text());
        } else if field >= 150 {
            let whole = scale_up(0x80_0000 + fraction, field - 150);
            proof {
                reveal_strlit(".000");
                assert(self.thousandths() == 1000 * whole);
            }
            push_decimal(out, whole);
            out.append(".000");
            assert(final(out)@ =~= old(out)@ + self.magnitude_text());
        } else {
            let significand: u32 = if field == 0 {
                fraction
            } else {
                0x80_0000 + fraction
            };
            let shift: u32 = if field == 0 {
                149
            } else {
                150 - field
            };
            let t = round_scaled(1000 * (significand as u64), shift as u64);
            proof {
                reveal_strlit(".");
                assert(self.thousandths() == t);
            }
            push_decimal(out, (t / 1000) as u128);
            out.append(".");
            push_three_digits(out, (t % 1000) as u16);
            assert(final(out)@ =~= old(out)@ + self.magnitude_text());
        }
    }

    /// The magnitude as a string of its own.
    pub fn magnitude(&self) -> (r: String)
        ensures
            r@ == self.magnitude_text(),
    {
        let mut out = String::new();
        self.push_magnitude(&mut out);
        assert(out@ =~= self.magnitude_text());
        out
    }
}

/// Every angle is exactly one of a number, an infinity and a NaN, and
/// exactly one of at least zero, below zero and a NaN.
pub proof fn lemma_degrees_cases(x: Degrees)
    ensures
        x.spec_is_finite() || x.spec_is_infinite() || x.spec_is_nan(),
        !(x.spec_is_finite() && x.spec_is_infinite()),
        !(x.spec_is_finite() && x.spec_is_nan()),
        !(x.spec_is_infinite() && x.spec_is_nan()),
        x.spec_at_least_zero() || x.below_zero() || x.spec_is_nan(),
        !(x.spec_at_least_zero() && x.below_zero()),
        !(x.spec_at_least_zero() && x.spec_is_nan()),
        !(x.below_zero() && x.spec_is_nan()),
{
}

/// The thousandths shown for a finite angle are the whole number nearest to
/// one thousand times its magnitude, the even one at a tie.
pub proof fn lemma_thousandths_nearest(x: Degrees)
    requires
        x.spec_is_finite(),
    ensures
        x.scaled_denominator() > 0,
        is_nearest_even(x.scaled_numerator(), x.scaled_denominator(), x.thousandths()),
{
    if x.exponent() < 0 {
        lemma_pow2_pos((-x.exponent()) as nat);
    }
    lemma_round_half_even_nearest(x.scaled_numerator(), x.scaled_denominator());
}

/// The text of a finite magnitude reads back as its thousandths: a point
/// stands before the last three characters, the digits before it spell the
/// whole degrees and the three behind it the thousandths left over.
pub proof fn lemma_magnitude_reads_back(x: Degrees)
    requires
        x.spec_is_finite(),
    ensures
        ({
            let text = x.magnitude_text();
            let point = text.len() - 4;
            &&& text.len() >= 5
            &&& text[point] == '.'
            &&& text.subrange(0, point) == decimal(x.thousandths() / 1000)
            &&& text.subrange(point + 1, text.len() as int) == three_digits(
                x.thousandths() % 1000,
            )
            &&& 1000 * decimal_value(text.subrange(0, point)) + decimal_value(
                text.subrange(point + 1, text.len() as int),
            ) == x.thousandths()
        }),
{
    let t = x.thousandths();
    let text = x.magnitude_text();
    let point = text.len() - 4;
    lemma_decimal_reads_back(t / 1000);
    lemma_three_digits_read_back(t % 1000);
    assert(text.subrange(0, point) =~= decimal(t / 1000));
    assert(text.subrange(point + 1, text.len() as int) =~= three_digits(t % 1000));
}

/// `significand * 2^exponent`, for a significand of twenty-four bits and an
/// exponent that a finite binary32 number can have.
fn scale_up(significand: u32, exponent: u32) -> (r: u128)
    requires
        significand < 0x100_0000,
        exponent <= 104,
    ensures
        r == significand * pow2(exponent as nat),
{
    let mut r: u128 = significand as u128;
    let mut i: u32 = 0;
    proof {
        lemma2_to64();
    }
    while i < exponent
        invariant
            i <= exponent <= 104,
            significand < 0x100_0000,
            r == significand * pow2(i as nat),
        decreases exponent - i,
    {
        proof {
            lemma_pow2_unfold((i + 1) as nat);
            lemma_scaled_fits(significand as nat, (i + 1) as nat);
            assert(significand * (2 * pow2(i as nat)) == 2 * (significand * pow2(i as nat)))
                by (nonlinear_arith);
        }
        r = r * 2;
        i = i + 1;
    }
    r
}

/// A significand of twenty-four bits scaled by at most `2^104` stays below
/// `2^128`.
proof fn lemma_scaled_fits(significand: nat, exponent: nat)
    requires
        significand < 0x100_0000,
        exponent <= 104,
    ensures
        significand * pow2(exponent) < 0x1_0000_0000_0000_0000_0000_0000_0000_0000,
{
    lemma2_to64();
    lemma2_to64_rest();
    lemma_pow2_adds(64, 40);
    assert(pow2(104) == 0x100_0000_0000_0000_0000_0000_0000);
    if exponent < 104 {
        lemma_pow2_strictly_increases(exponent, 104);
    }
    let p = pow2(exponent);
    assert(significand * p < 0x1_0000_0000_0000_0000_0000_0000_0000_0000) by (nonlinear_arith)
        requires
            significand < 0x100_0000,
            p <= 0x100_0000_0000_0000_0000_0000_0000,
    ;
}

/// `n / 2^shift`, rounded to the nearest whole number, ties to even.
fn round_scaled(n: u64, shift: u64) -> (r: u64)
    requires
        n < 0x4_0000_0000,
        1 <= shift <= 149,
    ensures
        r == round_half_even(n as nat, pow2(shift as nat)),
{
    if shift >= 35 {
        proof {
            lemma2_to64_rest();
            if shift > 35 {
                lemma_pow2_strictly_increases(35, shift as nat);
            }
            let d = pow2(shift as nat);
            lemma_small_mod(n as nat, d);
            lemma_basic_div(n as int, d as int);
        }
        0
    } else {
        proof {
            lemma2_to64();
            lemma2_to64_rest();
            if shift < 34 {
                lemma_pow2_strictly_increases(shift as nat, 34);
            }
            lemma_pow2_pos(shift as nat);
            assert(1 * pow2(shift as nat) == pow2(shift as nat));
            lemma_u64_shl_is_mul(1, shift);
        }
        let d: u64 = 1u64 << shift;
        let q = n / d;
        let rem = n % d;
        if 2 * rem < d || (2 * rem == d && q % 2 == 0) {
            q
        } else {
            q + 1
        }
    }
}

} // verus!
