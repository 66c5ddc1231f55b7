//! Single-precision telemetry readings, held and computed on by bit pattern.
//!
//! A finite reading stands for `significand * 2^exponent`, negated where the
//! sign bit is set. Every rule below is stated over those integers, so that
//! each result is the one that IEEE-754 arithmetic gives, bit for bit.

use vstd::arithmetic::div_mod::lemma_basic_div;
use vstd::arithmetic::div_mod::lemma_div_nonincreasing;
use vstd::arithmetic::div_mod::lemma_fundamental_div_mod;
use vstd::arithmetic::div_mod::lemma_mod_bound;
use vstd::arithmetic::mul::lemma_mul_inequality;
use vstd::arithmetic::power2::lemma2_to64;
use vstd::arithmetic::power2::lemma2_to64_rest;
use vstd::arithmetic::power2::lemma_pow2_pos;
use vstd::arithmetic::power2::lemma_pow2_strictly_increases;
use vstd::arithmetic::power2::pow2;
use vstd::bits::lemma_u64_pow2_no_overflow;
use vstd::bits::lemma_u64_shl_is_mul;
use vstd::prelude::*;

verus! {

/// An IEEE-754 single-precision number, held by its bit pattern.
#[derive(Clone, Copy, Debug, PartialEq, Eq, Structural)]
pub struct Reading {
    pub bits: u32,
}

/// `floor(n * 2^e)`
pub open spec fn scaled_floor(n: nat, e: int) -> nat {
    if e >= 0 {
        n * pow2(e as nat)
    } else {
        n / pow2((-e) as nat)
    }
}

/// `floor(n * 2^e + 1/2)`: `n * 2^e` rounded to the nearest integer, a half
/// going up.
pub open spec fn scaled_round(n: nat, e: int) -> nat {
    if e >= 0 {
        n * pow2(e as nat)
    } else {
        (2 * n + pow2((-e) as nat)) / (2 * pow2((-e) as nat))
    }
}

/// `n / 2^drop` rounded to the nearest integer, a half going to the even one.
pub open spec fn round_half_even(n: nat, drop: nat) -> nat {
    let unit = pow2(drop);
    let quotient = n / unit;
    let rest = n % unit;
    if 2 * rest > unit || (2 * rest == unit && quotient % 2 == 1) {
        quotient + 1
    } else {
        quotient
    }
}

/// The number of low bits that `n` has beyond the 24 that a significand holds.
pub open spec fn excess_bits(n: nat) -> nat
    decreases n,
{
    if n < 0x100_0000 {
        0
    } else {
        1 + excess_bits(n / 2)
    }
}

/// `n` as a `u32`, the largest `u32` standing for everything above it.
pub open spec fn saturated(n: nat) -> u32 {
    if n > u32::MAX {
        u32::MAX
    } else {
        n as u32
    }
}

/// The single nearest to the double with the bit pattern `bits`, a tie going
/// to the one with an even significand.
///
/// The double stands for `significand * 2^exponent`. The single's least unit
/// is `2^unit`, never under `2^-149`; `step` counts the exponent steps above
/// the subnormal range, so that `step * 2^23 + significand / 2^drop` is the
/// single's bit pattern, a carry out of the significand raising the exponent
/// by itself. What reaches the exponent 255 is infinite. A NaN gives the quiet
/// NaN with no payload.
pub open spec fn narrowed(bits: u64) -> Reading {
    let sign: int = if bits >= 0x8000_0000_0000_0000 {
        0x8000_0000
    } else {
        0
    };
    let biased: int = ((bits / 0x10_0000_0000_0000) % 0x800) as int;
    let fraction: int = (bits % 0x10_0000_0000_0000) as int;
    let magnitude: int = if biased == 2047 {
        if fraction == 0 {
            0x7F80_0000
        } else {
            0x7FC0_0000
        }
    } else {
        let significand: int = if biased == 0 {
            fraction
        } else {
            fraction + 0x10_0000_0000_0000
        };
        let exponent: int = if biased == 0 {
            -1074
        } else {
            biased - 1075
        };
        let unit: int = if exponent + 29 < -149 {
            -149
        } else {
            exponent + 29
        };
        let step: int = unit + 149;
        let drop: int = unit - exponent;
        let pattern = step * 0x80_0000 + round_half_even(significand as nat, drop as nat);
        if pattern >= 0x7F80_0000 {
            0x7F80_0000
        } else {
            pattern
        }
    };
    Reading { bits: (sign + magnitude) as u32 }
}

impl Reading {
    /// The low 23 bits: the significand without its leading bit.
    pub open spec fn fraction(self) -> nat {
        (self.bits % 0x80_0000) as nat
    }

    /// The 8 bits of the exponent, as they are stored.
    pub open spec fn biased_exponent(self) -> nat {
        ((self.bits / 0x80_0000) % 0x100) as nat
    }

    /// Whether the sign bit is set.
    pub open spec fn is_negative(self) -> bool {
        self.bits >= 0x8000_0000
    }

    /// Whether the reading is no number.
    pub open spec fn is_nan(self) -> bool {
        self.biased_exponent() == 255 && self.fraction() != 0
    }

    /// Whether the reading is infinite, on either side.
    pub open spec fn is_infinite(self) -> bool {
        self.biased_exponent() == 255 && self.fraction() == 0
    }

    /// For a finite reading: its magnitude is `significand * 2^exponent`.
    pub open spec fn significand(self) -> nat {
        if self.biased_exponent() == 0 {
            self.fraction()
        } else {
            self.fraction() + 0x80_0000
        }
    }

    /// The power of two that a finite reading's significand is to be taken
    /// times; a subnormal reading has the least one.
    pub open spec fn exponent(self) -> int {
        if self.biased_exponent() == 0 {
            -149
        } else {
            self.biased_exponent() - 150
        }
    }

    /// Whether the reading is greater than zero. Neither zero nor a NaN is.
    pub open spec fn spec_is_positive(self) -> bool {
        0 < self.bits <= 0x7F80_0000
    }

    /// The magnitude rounded to the nearest integer, a half going away from
    /// zero, as a `u32`: what is too large gives `u32::MAX`, a NaN gives 0.
    pub open spec fn spec_rounded_magnitude(self) -> u32 {
        if self.is_nan() {
            0
        } else if self.is_infinite() {
            u32::MAX
        } else {
            saturated(scaled_round(self.significand(), self.exponent()))
        }
    }

    /// A hundred times the reading, as single-precision multiplication gives
    /// it, cut down to its integer part, as a `u32`: what is negative or a NaN
    /// gives 0, what is too large gives `u32::MAX`.
    ///
    /// The product `100 * significand` is first brought to 24 significant bits,
    /// a tie going to the even one; that is the rounding of the multiplication.
    pub open spec fn spec_percent(self) -> u32 {
        if self.is_nan() || self.is_negative() {
            0
        } else if self.is_infinite() {
            u32::MAX
        } else {
            let product = 100 * self.significand();
            let drop = excess_bits(product);
            saturated(scaled_floor(round_half_even(product, drop), self.exponent() + drop))
        }
    }

    /// The reading cut down to its integer part, as a `u8`: what is negative or
    /// a NaN gives 0, what is too large gives 255. This is the older of the two
    /// ways to read a lamp; the state of a vehicle goes by `is_positive`.
    pub open spec fn spec_level(self) -> u8 {
        if self.is_nan() || self.is_negative() {
            0
        } else if self.is_infinite() {
            255
        } else {
            let whole = scaled_floor(self.significand(), self.exponent());
            if whole > 255 {
                255
            } else {
                whole as u8
            }
        }
    }

    /// The reading with the bit pattern `bits`.
    pub fn from_bits(bits: u32) -> (r: Reading)
        ensures
            r.bits == bits,
    {
        Reading { bits }
    }

    /// The reading's bit pattern.
    pub fn to_bits(self) -> (bits: u32)
        ensures
            bits == self.bits,
    {
        self.bits
    }

    /// Positive zero.
    pub fn zero() -> (r: Reading)
        ensures
            r.bits == 0,
    {
        Reading { bits: 0 }
    }

    /// The single nearest to the double with the bit pattern `bits`.
    pub fn from_double_bits(bits: u64) -> (r: Reading)
        ensures
            r == narrowed(bits),
    {
        let sign: u32 = if bits >= 0x8000_0000_0000_0000 {
            0x8000_0000
        } else {
            0
        };
        let biased: u64 = (bits / 0x10_0000_0000_0000) % 0x800;
        let fraction: u64 = bits % 0x10_0000_0000_0000;
        let magnitude: u32 = if biased == 2047 {
            if fraction == 0 {
                0x7F80_0000
            } else {
                0x7FC0_0000
            }
        } else {
            let significand: u64 = if biased == 0 {
                fraction
            } else {
                fraction + 0x10_0000_0000_0000
            };
            let raised: u64 = if biased == 0 {
                1
            } else {
                biased
            };
            if raised >= 897 {
                let step: u64 = raised - 897;
                let rounded: u64 = rounded_quotient(significand, 29);
                proof {
                    lemma2_to64();
                    lemma_quotient_below(significand as nat, pow2(29), 0x100_0000);
                }
                let pattern: u64 = step * 0x80_0000 + rounded;
                if pattern >= 0x7F80_0000 {
                    0x7F80_0000
                } else {
                    pattern as u32
                }
            } else {
                let drop: u64 = 926 - raised;
                if drop >= 55 {
                    proof {
                        lemma_vanishing_quotient(significand as nat, drop as nat);
                    }
                    0
                } else {
                    let rounded: u64 = rounded_quotient(significand, drop as u32);
                    proof {
                        lemma_pow2_at_least(30, drop as nat);
                        lemma2_to64();
                        lemma_mul_inequality(0x4000_0000, pow2(drop as nat) as int, 0x80_0000);
                        lemma_quotient_below(significand as nat, pow2(drop as nat), 0x80_0000);
                    }
                    rounded as u32
                }
            }
        };
        Reading { bits: sign + magnitude }
    }

    /// Whether the reading is greater than zero.
    #[verifier::when_used_as_spec(spec_is_positive)]
    pub fn is_positive(self) -> (b: bool)
        ensures
            b == self.spec_is_positive(),
    {
        0 < self.bits && self.bits <= 0x7F80_0000
    }

    /// The reading cut down to its integer part, as a `u8`.
    pub fn level(self) -> (n: u8)
        ensures
            n == self.spec_level(),
    {
        let biased: u32 = (self.bits / 0x80_0000) % 0x100;
        let fraction: u32 = self.bits % 0x80_0000;
        if self.bits >= 0x8000_0000 {
            0
        } else if biased == 255 {
            if fraction == 0 {
                255
            } else {
                0
            }
        } else {
            let significand: u64 = if biased == 0 {
                fraction as u64
            } else {
                fraction as u64 + 0x80_0000
            };
            let raised: u32 = if biased == 0 {
                1
            } else {
                biased
            };
            assert(significand == self.significand());
            assert(raised - 150 == self.exponent());
            let whole: u32 = floor_scaled(significand, raised);
            if whole > 255 {
                255
            } else {
                whole as u8
            }
        }
    }

    /// The magnitude, rounded to the nearest integer.
    pub fn rounded_magnitude(self) -> (n: u32)
        ensures
            n == self.spec_rounded_magnitude(),
    {
        let biased: u32 = (self.bits / 0x80_0000) % 0x100;
        let fraction: u32 = self.bits % 0x80_0000;
        if biased == 255 {
            if fraction == 0 {
                u32::MAX
            } else {
                0
            }
        } else {
            let significand: u64 = if biased == 0 {
                fraction as u64
            } else {
                fraction as u64 + 0x80_0000
            };
            let raised: u32 = if biased == 0 {
                1
            } else {
                biased
            };
            assert(significand == self.significand());
            assert(raised - 150 == self.exponent());
            round_scaled(significand, raised)
        }
    }

    /// A hundred times the reading, cut down to its integer part.
    pub fn percent(self) -> (n: u32)
        ensures
            n == self.spec_percent(),
    {
        let biased: u32 = (self.bits / 0x80_0000) % 0x100;
        let fraction: u32 = self.bits % 0x80_0000;
        if self.bits >= 0x8000_0000 {
            0
        } else if biased == 255 {
            if fraction == 0 {
                u32::MAX
            } else {
                0
            }
        } else {
            let significand: u64 = if biased == 0 {
                fraction as u64
            } else {
                fraction as u64 + 0x80_0000
            };
            let raised: u32 = if biased == 0 {
                1
            } else {
                biased
            };
            assert(significand == self.significand());
            assert(raised - 150 == self.exponent());
            let product: u64 = 100 * significand;
            let drop: u32 = excess_of(product);
            let rounded: u64 = rounded_quotient(product, drop);
            proof {
                lemma_pow2_pos(drop as nat);
                lemma_quotient_below(product as nat, pow2(drop as nat), 0x100_0000);
            }
            floor_scaled(rounded, raised + drop)
        }
    }
}

/// `floor(n * 2^(lift - 150))`, as a `u32`.
fn floor_scaled(n: u64, lift: u32) -> (r: u32)
    requires
        n <= 0x100_0000,
        lift <= 300,
    ensures
        r == saturated(scaled_floor(n as nat, lift - 150)),
{
    if lift >= 150 {
        let up: u32 = lift - 150;
        let ghost exact: nat = n as nat * pow2(up as nat);
        assert(scaled_floor(n as nat, lift - 150) == exact);
        if n == 0 {
            assert(exact == 0) by (nonlinear_arith)
                requires
                    exact == n as nat * pow2(up as nat),
                    n == 0,
            ;
            0
        } else if up >= 32 {
            proof {
                lemma_pow2_at_least(32, up as nat);
                assert(exact >= 0x1_0000_0000) by (nonlinear_arith)
                    requires
                        exact == n as nat * pow2(up as nat),
                        n >= 1,
                        pow2(up as nat) >= 0x1_0000_0000,
                ;
            }
            u32::MAX
        } else {
            let unit: u64 = power_of_two(up);
            proof {
                lemma_pow2_at_least(up as nat, 31);
                assert(n * unit <= 0x100_0000 * 0x8000_0000) by (nonlinear_arith)
                    requires
                        n <= 0x100_0000,
                        unit <= 0x8000_0000,
                ;
            }
            let scaled: u64 = n * unit;
            assert(scaled == exact);
            if scaled > 0xFFFF_FFFF {
                u32::MAX
            } else {
                scaled as u32
            }
        }
    } else {
        let down: u32 = 150 - lift;
        let ghost exact: nat = n as nat / pow2(down as nat);
        assert(scaled_floor(n as nat, lift - 150) == exact);
        if down >= 32 {
            proof {
                lemma_pow2_at_least(32, down as nat);
                lemma_basic_div(n as int, pow2(down as nat) as int);
            }
            0
        } else {
            proof {
                lemma_pow2_pos(down as nat);
            }
            let unit: u64 = power_of_two(down);
            proof {
                lemma_div_nonincreasing(n as int, unit as int);
            }
            (n / unit) as u32
        }
    }
}

/// `floor(n * 2^(lift - 150) + 1/2)`, as a `u32`.
fn round_scaled(n: u64, lift: u32) -> (r: u32)
    requires
        n < 0x100_0000,
        lift <= 300,
        lift >= 150 ==> n >= 0x80_0000,
    ensures
        r == saturated(scaled_round(n as nat, lift - 150)),
{
    if lift >= 150 {
        let up: u32 = lift - 150;
        let ghost exact: nat = n as nat * pow2(up as nat);
        assert(scaled_round(n as nat, lift - 150) == exact);
        if up >= 9 {
            proof {
                lemma_pow2_at_least(9, up as nat);
                assert(exact >= 0x1_0000_0000) by (nonlinear_arith)
                    requires
                        exact == n as nat * pow2(up as nat),
                        n >= 0x80_0000,
                        pow2(up as nat) >= 0x200,
                ;
            }
            u32::MAX
        } else {
            let unit: u64 = power_of_two(up);
            proof {
                lemma_pow2_at_least(up as nat, 8);
                assert(n * unit < 0x100_0000 * 0x100) by (nonlinear_arith)
                    requires
                        n < 0x100_0000,
                        unit <= 0x100,
                ;
            }
            let scaled: u64 = n * unit;
            assert(scaled == exact);
            scaled as u32
        }
    } else {
        let down: u32 = 150 - lift;
        let ghost exact: nat = (2 * n as nat + pow2(down as nat)) / (2 * pow2(down as nat));
        assert(scaled_round(n as nat, lift - 150) == exact);
        if down >= 26 {
            proof {
                lemma_pow2_at_least(26, down as nat);
                lemma_basic_div(2 * n + pow2(down as nat), (2 * pow2(down as nat)) as int);
            }
            0
        } else {
            proof {
                lemma_pow2_at_least(down as nat, 25);
            }
            let unit: u64 = power_of_two(down);
            proof {
                lemma_div_nonincreasing((2 * n + unit) as int, (2 * unit) as int);
            }
            ((2 * n + unit) / (2 * unit)) as u32
        }
    }
}

/// `2^k`
fn power_of_two(k: u32) -> (unit: u64)
    requires
        k < 64,
    ensures
        unit == pow2(k as nat),
{
    proof {
        lemma_u64_pow2_no_overflow(k as nat);
        lemma_u64_shl_is_mul(1, k as u64);
    }
    1u64 << (k as u64)
}

/// `n / 2^drop`, rounded to the nearest integer, a half going to the even one.
fn rounded_quotient(n: u64, drop: u32) -> (rounded: u64)
    requires
        drop < 63,
        n < 0x8000_0000_0000_0000,
    ensures
        rounded == round_half_even(n as nat, drop as nat),
        rounded <= n as nat / pow2(drop as nat) + 1,
{
    proof {
        lemma_pow2_at_least(drop as nat, 62);
    }
    let unit: u64 = power_of_two(drop);
    let quotient: u64 = n / unit;
    let rest: u64 = n % unit;
    proof {
        lemma_div_nonincreasing(n as int, unit as int);
    }
    if 2 * rest > unit || (2 * rest == unit && quotient % 2 == 1) {
        quotient + 1
    } else {
        quotient
    }
}

/// The number of bits that `product` has beyond 24.
fn excess_of(product: u64) -> (drop: u32)
    requires
        product < 0x8000_0000,
    ensures
        drop == excess_bits(product as nat),
        drop <= 7,
        product < 0x100_0000 * pow2(drop as nat),
{
    proof {
        reveal_with_fuel(excess_bits, 9);
        lemma2_to64();
    }
    if product < 0x100_0000 {
        0
    } else if product < 0x200_0000 {
        1
    } else if product < 0x400_0000 {
        2
    } else if product < 0x800_0000 {
        3
    } else if product < 0x1000_0000 {
        4
    } else if product < 0x2000_0000 {
        5
    } else if product < 0x4000_0000 {
        6
    } else {
        7
    }
}

/// `2^low <= 2^high` where `low <= high`, with the values up to `2^64` at hand.
proof fn lemma_pow2_at_least(low: nat, high: nat)
    requires
        low <= high,
    ensures
        pow2(low) <= pow2(high),
        pow2(low) > 0,
        low == 8 ==> pow2(low) == 0x100,
        low == 9 ==> pow2(low) == 0x200,
        low == 26 ==> pow2(low) == 0x400_0000,
        low == 32 ==> pow2(low) == 0x1_0000_0000,
        high == 8 ==> pow2(high) == 0x100,
        high == 23 ==> pow2(high) == 0x80_0000,
        low == 24 ==> pow2(low) == 0x100_0000,
        high == 25 ==> pow2(high) == 0x200_0000,
        high == 31 ==> pow2(high) == 0x8000_0000,
        high == 62 ==> pow2(high) == 0x4000_0000_0000_0000,
{
    lemma2_to64();
    lemma2_to64_rest();
    lemma_pow2_pos(low);
    if low < high {
        lemma_pow2_strictly_increases(low, high);
    }
}

/// `n / d < a` where `n < a * d`.
proof fn lemma_quotient_below(n: nat, d: nat, a: nat)
    requires
        d > 0,
        n < a * d,
    ensures
        n / d < a,
{
    lemma_fundamental_div_mod(n as int, d as int);
    lemma_mod_bound(n as int, d as int);
    assert(n / d < a) by (nonlinear_arith)
        requires
            d > 0,
            n < a * d,
            n == d * (n / d) + n % d,
            0 <= n % d,
    ;
}

/// A number under `2^53` is less than half of `2^drop` where `drop >= 55`: it
/// rounds to nothing.
proof fn lemma_vanishing_quotient(n: nat, drop: nat)
    requires
        n < 0x20_0000_0000_0000,
        drop >= 55,
    ensures
        round_half_even(n, drop) == 0,
{
    lemma2_to64_rest();
    lemma_pow2_pos(55);
    if 55 < drop {
        lemma_pow2_strictly_increases(55, drop);
    }
    lemma_basic_div(n as int, pow2(drop) as int);
    vstd::arithmetic::div_mod::lemma_small_mod(n, pow2(drop));
}

/// Rounding goes to the nearest integer: twice the result lies within one unit
/// of twice the number, and a half goes up.
pub proof fn rounding_is_to_the_nearest(n: nat, e: int)
    requires
        e < 0,
    ensures
        2 * n - pow2((-e) as nat) < 2 * pow2((-e) as nat) * scaled_round(n, e) <= 2 * n + pow2(
            (-e) as nat,
        ),
{
    let unit = pow2((-e) as nat);
    lemma_pow2_pos((-e) as nat);
    lemma_fundamental_div_mod((2 * n + unit) as int, (2 * unit) as int);
    lemma_mod_bound((2 * n + unit) as int, (2 * unit) as int);
}

/// Cutting goes downwards: the result is the greatest integer that is not
/// above the number.
pub proof fn cutting_is_downwards(n: nat, e: int)
    requires
        e < 0,
    ensures
        pow2((-e) as nat) * scaled_floor(n, e) <= n < pow2((-e) as nat) * (scaled_floor(n, e) + 1),
{
    let unit = pow2((-e) as nat);
    lemma_pow2_pos((-e) as nat);
    lemma_fundamental_div_mod(n as int, unit as int);
    lemma_mod_bound(n as int, unit as int);
    assert(unit * (n / unit + 1) == unit * (n / unit) + unit) by (nonlinear_arith);
}

/// Rounding to even goes to the nearest integer: twice the result lies within
/// one unit of twice the number, and where it lies a whole unit off, the
/// number stood halfway and the result is even.
pub proof fn rounding_to_even_is_to_the_nearest(n: nat, drop: nat)
    ensures
        2 * n - pow2(drop) <= 2 * pow2(drop) * round_half_even(n, drop) <= 2 * n + pow2(drop),
        2 * pow2(drop) * round_half_even(n, drop) == 2 * n + pow2(drop) ==> round_half_even(
            n,
            drop,
        ) % 2 == 0,
        2 * pow2(drop) * round_half_even(n, drop) == 2 * n - pow2(drop) ==> round_half_even(
            n,
            drop,
        ) % 2 == 0,
{
    let unit = pow2(drop);
    let quotient = n / unit;
    let rest = n % unit;
    lemma_pow2_pos(drop);
    lemma_fundamental_div_mod(n as int, unit as int);
    lemma_mod_bound(n as int, unit as int);
    assert(2 * unit * (quotient + 1) == 2 * (unit * quotient) + 2 * unit) by (nonlinear_arith);
    assert(2 * unit * quotient == 2 * (unit * quotient)) by (nonlinear_arith);
}

/// What `excess_bits` leaves of a number under `2^31`: at most 7 bits go, and
/// what stays is under `2^24`.
proof fn lemma_excess_bits_small(n: nat)
    requires
        n < 0x8000_0000,
    ensures
        excess_bits(n) <= 7,
        n < 0x100_0000 * pow2(excess_bits(n)),
{
    reveal_with_fuel(excess_bits, 9);
    lemma2_to64();
}

/// A reading from zero to one gives at most 100 percent.
pub proof fn fraction_gives_at_most_100(r: Reading)
    requires
        r.bits <= 0x3F80_0000,
    ensures
        r.spec_percent() <= 100,
{
    let biased = r.biased_exponent();
    let significand = r.significand();
    let product = 100 * significand;
    let drop = excess_bits(product);
    lemma_excess_bits_small(product);
    lemma2_to64();
    lemma_pow2_pos(drop);
    let rounded = round_half_even(product, drop);
    let quotient = product / pow2(drop);
    if biased == 127 {
        assert(r.bits == 0x3F80_0000);
        assert(product == 838860800);
        reveal_with_fuel(excess_bits, 9);
        assert(drop == 6);
        assert(pow2(drop) == 64);
        assert(product / 64 == 13107200 && product % 64 == 0);
        assert(rounded == 13107200);
        assert(r.exponent() + drop == -17);
        assert(pow2(17) == 0x2_0000);
        assert(scaled_floor(rounded, -17) == 13107200nat / 0x2_0000);
        assert(r.spec_percent() == 100);
    } else {
        let raised: int = if biased == 0 {
            1
        } else {
            biased as int
        };
        let down = (150 - raised - drop) as nat;
        let rest = (24 - drop) as nat;
        assert(r.exponent() + drop == -(down as int));
        lemma_pow2_pos(rest);
        lemma_pow2_pos(down);
        vstd::arithmetic::power2::lemma_pow2_adds(rest, drop);
        assert(product < 100 * pow2(rest) * pow2(drop)) by (nonlinear_arith)
            requires
                product < 100 * 0x100_0000,
                pow2(rest) * pow2(drop) == 0x100_0000,
        ;
        lemma_quotient_below(product, pow2(drop), 100 * pow2(rest));
        assert(rounded <= 100 * pow2(rest));
        lemma_pow2_at_least(rest, down);
        vstd::arithmetic::div_mod::lemma_div_is_ordered_by_denominator(
            rounded as int,
            pow2(rest) as int,
            pow2(down) as int,
        );
        vstd::arithmetic::div_mod::lemma_div_is_ordered(
            rounded as int,
            (100 * pow2(rest)) as int,
            pow2(rest) as int,
        );
        vstd::arithmetic::div_mod::lemma_div_by_multiple(100, pow2(rest) as int);
        assert(scaled_floor(rounded, r.exponent() + drop) == rounded / pow2(down));
        assert(rounded / pow2(down) <= 100);
    }
}

/// The two ways to read a lamp differ for the intensities between zero and
/// one, and for no others: there the lamp is on, though the integer part of
/// its intensity is zero.
pub proof fn lamp_rules_differ_below_one(r: Reading)
    ensures
        (r.spec_is_positive() != (r.spec_level() != 0)) <==> 0 < r.bits < 0x3F80_0000,
{
    let biased = r.biased_exponent();
    let significand = r.significand();
    lemma2_to64();
    if r.bits == 0 {
        lemma_pow2_pos(149);
        lemma_basic_div(0, pow2(149) as int);
        assert(r.spec_level() == 0);
    } else if r.bits < 0x3F80_0000 {
        assert(biased <= 126);
        let raised: int = if biased == 0 {
            1
        } else {
            biased as int
        };
        let down = (150 - raised) as nat;
        assert(r.exponent() == -(down as int));
        lemma_pow2_at_least(24, down);
        lemma_basic_div(significand as int, pow2(down) as int);
        assert(scaled_floor(significand, r.exponent()) == 0);
        assert(r.spec_level() == 0);
    } else if r.bits < 0x7F80_0000 {
        assert(127 <= biased <= 254);
        assert(significand >= 0x80_0000);
        if biased >= 150 {
            let up = (biased - 150) as nat;
            assert(r.exponent() == up as int);
            lemma_pow2_pos(up);
            assert(significand * pow2(up) >= 1) by (nonlinear_arith)
                requires
                    significand >= 1,
                    pow2(up) >= 1,
            ;
            assert(scaled_floor(significand, r.exponent()) >= 1);
        } else {
            let down = (150 - biased) as nat;
            assert(r.exponent() == -(down as int));
            lemma_pow2_at_least(down, 23);
            vstd::arithmetic::div_mod::lemma_div_is_ordered(
                pow2(down) as int,
                significand as int,
                pow2(down) as int,
            );
            vstd::arithmetic::div_mod::lemma_div_by_multiple(1, pow2(down) as int);
            assert(scaled_floor(significand, r.exponent()) >= 1);
        }
        assert(r.spec_level() != 0);
    } else if r.bits == 0x7F80_0000 {
        assert(r.is_infinite());
        assert(r.spec_level() == 255);
    } else if r.bits < 0x8000_0000 {
        assert(r.is_nan());
    } else {
        assert(r.is_negative());
    }
}

/// The double that holds exactly what the normal single `r` holds: the same
/// sign, the exponent moved to the double's bias, and the fraction with 29
/// more bits of zero.
pub open spec fn widened(r: Reading) -> u64 {
    let sign: int = if r.is_negative() {
        0x8000_0000_0000_0000
    } else {
        0
    };
    (sign + (r.biased_exponent() + 896) * 0x10_0000_0000_0000 + r.fraction() * 0x2000_0000) as u64
}

/// A double that holds exactly what a normal single holds narrows to that
/// single: nothing is lost where nothing has to go.
pub proof fn exact_single_is_kept(r: Reading)
    requires
        1 <= r.biased_exponent() <= 254,
    ensures
        narrowed(widened(r)) == r,
{
    let biased = r.biased_exponent();
    let fraction = r.fraction();
    let sign: int = if r.is_negative() {
        0x8000_0000_0000_0000
    } else {
        0
    };
    let tail = (biased + 896) * 0x10_0000_0000_0000 + fraction * 0x2000_0000;
    assert(fraction < 0x80_0000);
    assert(tail < 0x8000_0000_0000_0000);
    let wide = widened(r);
    assert(wide == sign + tail);
    assert((wide / 0x10_0000_0000_0000) % 0x800 == biased + 896);
    assert(wide % 0x10_0000_0000_0000 == fraction * 0x2000_0000);
    lemma2_to64();
    let significand = (fraction * 0x2000_0000 + 0x10_0000_0000_0000) as nat;
    assert(pow2(29) == 0x2000_0000);
    assert(significand == (fraction + 0x80_0000) * 0x2000_0000);
    assert(significand / 0x2000_0000 == fraction + 0x80_0000);
    assert(significand % 0x2000_0000 == 0);
    assert(round_half_even(significand, 29) == fraction + 0x80_0000);
    assert(r.bits == (if r.is_negative() {
        0x8000_0000int
    } else {
        0
    }) + biased * 0x80_0000 + fraction);
}

} // verus!
