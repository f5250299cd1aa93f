//! Numbers with a fraction, as the sources deliver them, and exact arithmetic
//! on the values they stand for.
//!
//! A number is kept as the bit pattern of its IEEE 754 binary64 form: one sign
//! bit, eleven exponent bits, fifty-two fraction bits. A finite number stands
//! for `significand * 2^power`, negated where the sign bit is set.

use vstd::prelude::*;
use vstd::arithmetic::power2::{lemma_pow2_pos, lemma_pow2_strictly_increases, lemma_pow2_unfold, pow2};
use crate::text::{decimal, digit_char, digit_to_char, push_decimal};

verus! {

/// A number in IEEE 754 binary64 form, held by its bit pattern. It is carried
/// through unchanged; two numbers are equal when their bit patterns are.
#[derive(Debug, Clone, Copy, PartialEq, Eq, Structural)]
pub struct Double {
    pub bits: u64,
}

/// Two to the power of 52, the weight of the lowest exponent bit.
pub const FRACTION_LIMIT: u64 = 0x10_0000_0000_0000;

/// The largest magnitude a scaled number may have.
pub const SCALED_LIMIT: u128 = 0x7fff_ffff_ffff_ffff_ffff_ffff_ffff_ffff;

/// Whether the sign bit is set.
pub open spec fn sign_bit(bits: u64) -> bool {
    bits >= 0x8000_0000_0000_0000
}

/// The exponent bits, as a number below 2048.
pub open spec fn exponent_field(bits: u64) -> nat {
    ((bits as nat) / (FRACTION_LIMIT as nat)) % 2048
}

/// The fraction bits, as a number below two to the power of 52.
pub open spec fn fraction_field(bits: u64) -> nat {
    (bits as nat) % (FRACTION_LIMIT as nat)
}

/// Whether the bits stand for a number, rather than for an infinity or for no number.
pub open spec fn is_finite(bits: u64) -> bool {
    exponent_field(bits) != 2047
}

/// Whether the bits stand for no number at all.
pub open spec fn is_nan(bits: u64) -> bool {
    exponent_field(bits) == 2047 && fraction_field(bits) != 0
}

/// The significand of a finite number: the fraction bits, with the hidden bit
/// in front unless the exponent bits are all zero.
pub open spec fn significand(bits: u64) -> nat {
    if exponent_field(bits) == 0 {
        fraction_field(bits)
    } else {
        fraction_field(bits) + FRACTION_LIMIT as nat
    }
}

/// The power of two that the significand of a finite number is multiplied by.
pub open spec fn power(bits: u64) -> int {
    if exponent_field(bits) == 0 {
        -1074
    } else {
        exponent_field(bits) - 1075
    }
}

/// `a / b` rounded to the nearest whole number, a tie to the even one.
pub open spec fn rounded_half_even(a: nat, b: nat) -> nat {
    let q = a / b;
    let r = a % b;
    if 2 * r > b || (2 * r == b && q % 2 == 1) {
        q + 1
    } else {
        q
    }
}

/// `factor` times the magnitude of a finite number, rounded half to even to a
/// whole number.
pub open spec fn scaled_magnitude(bits: u64, factor: nat) -> nat {
    let s = factor * significand(bits);
    let p = power(bits);
    if p >= 0 {
        s * pow2(p as nat)
    } else {
        rounded_half_even(s, pow2((-p) as nat))
    }
}

/// Computes `a / b` rounded half to even.
pub fn divide_half_even(a: u128, b: u128) -> (r: u128)
    requires
        b > 0,
        a / b < u128::MAX,
    ensures
        r == rounded_half_even(a as nat, b as nat),
{
    let q: u128 = a / b;
    let r: u128 = a % b;
    if r > b - r || (r == b - r && q % 2 == 1) {
        q + 1
    } else {
        q
    }
}

/// Computes two to the power of `k`.
fn power_of_two(k: u32) -> (r: u128)
    requires
        k <= 126,
    ensures
        r == pow2(k as nat),
        r <= 0x4000_0000_0000_0000_0000_0000_0000_0000,
{
    let mut r: u128 = 1;
    let mut i: u32 = 0;
    proof {
        vstd::arithmetic::power2::lemma2_to64();
        lemma_pow2_values();
    }
    while i < k
        invariant
            i <= k <= 126,
            r == pow2(i as nat),
            r <= pow2(126),
            pow2(126) == 0x4000_0000_0000_0000_0000_0000_0000_0000,
        decreases k - i,
    {
        proof {
            lemma_pow2_unfold((i + 1) as nat);
            if i + 1 < 126 {
                lemma_pow2_strictly_increases((i + 1) as nat, 126);
            }
        }
        r = r * 2;
        i += 1;
    }
    r
}

impl Double {
    /// The number with the bit pattern `bits`.
    pub fn from_bits(bits: u64) -> (d: Self)
        ensures
            d.bits == bits,
    {
        Double { bits }
    }

    /// The bit pattern of this number.
    pub fn to_bits(&self) -> (bits: u64)
        ensures
            bits == self.bits,
    {
        self.bits
    }

    /// Whether this is a number, rather than an infinity or no number.
    pub fn is_finite(&self) -> (r: bool)
        ensures
            r == is_finite(self.bits),
    {
        (self.bits / FRACTION_LIMIT) % 2048 != 2047
    }

    /// Whether this is no number at all.
    pub fn is_nan(&self) -> (r: bool)
        ensures
            r == is_nan(self.bits),
    {
        (self.bits / FRACTION_LIMIT) % 2048 == 2047 && self.bits % FRACTION_LIMIT != 0
    }

    /// Whether the sign bit is set.
    pub fn is_negative(&self) -> (r: bool)
        ensures
            r == sign_bit(self.bits),
    {
        self.bits >= 0x8000_0000_0000_0000
    }

    /// `factor` times the magnitude of this number, rounded half to even to a
    /// whole number; nothing where this is not finite or the result is beyond
    /// [`SCALED_LIMIT`].
    pub fn scaled(&self, factor: u64) -> (r: Option<u128>)
        ensures
            r == (if is_finite(self.bits) && scaled_magnitude(self.bits, factor as nat)
                <= SCALED_LIMIT {
                Some(scaled_magnitude(self.bits, factor as nat) as u128)
            } else {
                None
            }),
    {
        let field: u64 = (self.bits / FRACTION_LIMIT) % 2048;
        if field == 2047 {
            return None;
        }
        let fraction: u64 = self.bits % FRACTION_LIMIT;
        let sig: u64 = if field == 0 {
            fraction
        } else {
            fraction + FRACTION_LIMIT
        };
        assert(sig == significand(self.bits));
        assert(sig < 0x20_0000_0000_0000);
        assert((factor as int) * (sig as int) < 0x20_0000_0000_0000_0000_0000_0000_0000)
            by (nonlinear_arith)
            requires
                0 <= sig < 0x20_0000_0000_0000,
                0 <= factor <= 0xffff_ffff_ffff_ffff,
        ;
        let s: u128 = (factor as u128) * (sig as u128);
        assert(s == factor as nat * significand(self.bits));
        if field >= 1075 {
            let p: u32 = (field - 1075) as u32;
            assert(p as int == power(self.bits));
            if s == 0 {
                assert(0 * pow2(p as nat) == 0) by (nonlinear_arith);
                return Some(0);
            }
            if p >= 127 {
                proof {
                    lemma_pow2_values();
                    if p > 127 {
                        lemma_pow2_strictly_increases(127, p as nat);
                    }
                    assert(s * pow2(p as nat) >= pow2(p as nat)) by (nonlinear_arith)
                        requires
                            s >= 1,
                            pow2(p as nat) >= 0,
                    ;
                }
                return None;
            }
            let unit = power_of_two(p);
            proof {
                lemma_pow2_pos(p as nat);
            }
            if s > SCALED_LIMIT / unit {
                proof {
                    assert(s * unit > SCALED_LIMIT) by (nonlinear_arith)
                        requires
                            s > SCALED_LIMIT / unit,
                            unit > 0,
                    ;
                }
                None
            } else {
                proof {
                    assert(s * unit <= SCALED_LIMIT) by (nonlinear_arith)
                        requires
                            s <= SCALED_LIMIT / unit,
                            unit > 0,
                    ;
                }
                Some(s * unit)
            }
        } else {
            let k: u32 = if field == 0 {
                1074
            } else {
                (1075 - field) as u32
            };
            assert(k as int == -power(self.bits));
            if k >= 118 {
                proof {
                    lemma_pow2_values();
                    if k > 118 {
                        lemma_pow2_strictly_increases(118, k as nat);
                    }
                    let b = pow2(k as nat);
                    let a = s as nat;
                    assert(2 * a < b);
                    assert(a / b == 0 && a % b == a) by {
                        vstd::arithmetic::div_mod::lemma_basic_div(a as int, b as int);
                        vstd::arithmetic::div_mod::lemma_small_mod(a, b);
                    }
                }
                return Some(0);
            }
            let unit = power_of_two(k);
            proof {
                lemma_pow2_pos(k as nat);
                assert(s / unit <= s) by (nonlinear_arith)
                    requires
                        unit > 0,
                        s >= 0,
                ;
            }
            Some(divide_half_even(s, unit))
        }
    }
}

/// The powers of two that bound the arithmetic here.
proof fn lemma_pow2_values()
    ensures
        pow2(118) == 0x40_0000_0000_0000_0000_0000_0000_0000,
        pow2(126) == 0x4000_0000_0000_0000_0000_0000_0000_0000,
        pow2(127) == 0x8000_0000_0000_0000_0000_0000_0000_0000,
{
    vstd::arithmetic::power2::lemma2_to64();
    vstd::arithmetic::power2::lemma2_to64_rest();
    vstd::arithmetic::power2::lemma_pow2_adds(64, 54);
    vstd::arithmetic::power2::lemma_pow2_adds(64, 62);
    vstd::arithmetic::power2::lemma_pow2_adds(64, 63);
    assert(pow2(64) == 0x1_0000_0000_0000_0000);
    assert(pow2(54) == 0x40_0000_0000_0000);
    assert(pow2(62) == 0x4000_0000_0000_0000);
    assert(pow2(63) == 0x8000_0000_0000_0000);
    assert(0x1_0000_0000_0000_0000 * 0x40_0000_0000_0000 == 0x40_0000_0000_0000_0000_0000_0000_0000int);
    assert(0x1_0000_0000_0000_0000 * 0x4000_0000_0000_0000
        == 0x4000_0000_0000_0000_0000_0000_0000_0000int);
    assert(0x1_0000_0000_0000_0000 * 0x8000_0000_0000_0000
        == 0x8000_0000_0000_0000_0000_0000_0000_0000int);
}

/// Ten to the power of `n`.
pub open spec fn ten_to(n: nat) -> nat
    decreases n,
{
    if n == 0 {
        1
    } else {
        10 * ten_to((n - 1) as nat)
    }
}

/// The last `width` decimal digits of `n`, with zeros in front where `n` has fewer.
pub open spec fn last_digits(n: nat, width: nat) -> Seq<char>
    decreases width,
{
    if width == 0 {
        Seq::empty()
    } else {
        last_digits(n / 10, (width - 1) as nat).push(digit_char(n % 10))
    }
}

/// A whole number of units of `10^-places` written out with a decimal point.
pub open spec fn fixed_digits(units: nat, places: nat) -> Seq<char> {
    if places == 0 {
        decimal(units)
    } else {
        decimal(units / ten_to(places)) + seq!['.'] + last_digits(units % ten_to(places), places)
    }
}

/// A number written with `places` fractional digits, rounded half to even on
/// its exact value: a minus sign where the sign bit is set, `inf` for an
/// infinity and for a number too large to be scaled, `NaN` for no number.
pub open spec fn fixed_text(bits: u64, places: nat) -> Seq<char> {
    if is_nan(bits) {
        "NaN"@
    } else {
        let sign = if sign_bit(bits) {
            seq!['-']
        } else {
            Seq::empty()
        };
        if is_finite(bits) && scaled_magnitude(bits, ten_to(places)) <= SCALED_LIMIT {
            sign + fixed_digits(scaled_magnitude(bits, ten_to(places)), places)
        } else {
            sign + "inf"@
        }
    }
}

/// Computes [`ten_to`].
pub fn power_of_ten(n: u32) -> (r: u64)
    requires
        n <= 18,
    ensures
        r == ten_to(n as nat),
        1 <= r <= 1_000_000_000_000_000_000,
{
    let mut r: u64 = 1;
    let mut i: u32 = 0;
    assert(ten_to(18) == 1_000_000_000_000_000_000) by {
        reveal_with_fuel(ten_to, 19);
    }
    while i < n
        invariant
            i <= n <= 18,
            r == ten_to(i as nat),
            1 <= r,
            r * ten_to((18 - i) as nat) == 1_000_000_000_000_000_000,
        decreases n - i,
    {
        proof {
            let rest = ten_to((18 - i - 1) as nat);
            assert(ten_to((18 - i) as nat) == 10 * rest);
            assert(r * (10 * rest) == (r * 10) * rest) by (nonlinear_arith);
            lemma_ten_to_positive((18 - i - 1) as nat);
            assert(r * 10 <= (r * 10) * rest) by (nonlinear_arith)
                requires
                    rest >= 1,
                    r >= 0,
            ;
        }
        r = r * 10;
        i += 1;
    }
    proof {
        lemma_ten_to_positive((18 - n) as nat);
        let rest = ten_to((18 - n) as nat);
        assert(r <= r * rest) by (nonlinear_arith)
            requires
                rest >= 1,
                r >= 0,
        ;
    }
    r
}

/// A power of ten is at least one.
pub proof fn lemma_ten_to_positive(n: nat)
    ensures
        ten_to(n) >= 1,
    decreases n,
{
    if n > 0 {
        lemma_ten_to_positive((n - 1) as nat);
    }
}

/// Appends [`last_digits`].
pub fn push_last_digits(out: &mut String, n: u128, width: u32)
    ensures
        final(out)@ == old(out)@ + last_digits(n as nat, width as nat),
    decreases width,
{
    if width > 0 {
        push_last_digits(out, n / 10, width - 1);
        out.push(digit_to_char((n % 10) as u8));
    }
}

impl Double {
    /// Writes this number with `places` fractional digits.
    pub fn render_fixed(&self, places: u32) -> (text: String)
        requires
            places <= 18,
        ensures
            text@ == fixed_text(self.bits, places as nat),
    {
        if self.is_nan() {
            return "NaN".to_owned();
        }
        let mut text = String::new();
        if self.is_negative() {
            text.push('-');
        }
        let unit = power_of_ten(places);
        match self.scaled(unit) {
            Some(units) => {
                if places == 0 {
                    push_decimal(&mut text, units);
                } else {
                    push_decimal(&mut text, units / (unit as u128));
                    text.push('.');
                    push_last_digits(&mut text, units % (unit as u128), places);
                }
            },
            None => {
                text.append("inf");
            },
        }
        text
    }
}

} // verus!
