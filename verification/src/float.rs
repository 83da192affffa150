//! Floating-point bodies, kept as the bit patterns that were read, and the
//! one computation the library makes on them: scaling a duration.

use vstd::arithmetic::power2::{
    lemma2_to64, lemma2_to64_rest, lemma_pow2_adds, lemma_pow2_strictly_increases,
    lemma_pow2_unfold, pow2,
};
use vstd::prelude::*;

verus! {

/// An IEEE-754 number as its bit pattern, in the width it was stored in.
#[derive(Debug, Clone, Copy, PartialEq, Eq, Hash, Structural)]
pub enum FloatBits {
    /// The 32 bits of a single-precision number.
    Single(u32),
    /// The 64 bits of a double-precision number.
    Double(u64),
}

/// `p` times 2^`e`, rounded to the nearest integer, a half going up.
pub open spec fn round_shift(p: nat, e: int) -> nat {
    if e >= 0 {
        p * pow2(e as nat)
    } else {
        (p + pow2((-e - 1) as nat)) / pow2((-e) as nat)
    }
}

impl FloatBits {
    /// Whether the sign bit is set.
    pub open spec fn is_negative(self) -> bool {
        match self {
            FloatBits::Single(bits) => bits >= 0x8000_0000,
            FloatBits::Double(bits) => bits >= 0x8000_0000_0000_0000,
        }
    }

    /// The biased exponent field.
    pub open spec fn exponent_field(self) -> nat {
        match self {
            FloatBits::Single(bits) => ((bits / 0x80_0000) % 0x100) as nat,
            FloatBits::Double(bits) => ((bits / 0x10_0000_0000_0000) % 0x800) as nat,
        }
    }

    /// The fraction field.
    pub open spec fn fraction_field(self) -> nat {
        match self {
            FloatBits::Single(bits) => (bits % 0x80_0000) as nat,
            FloatBits::Double(bits) => (bits % 0x10_0000_0000_0000) as nat,
        }
    }

    /// The exponent field with all bits set, which marks infinities and
    /// NaNs.
    pub open spec fn top_exponent(self) -> nat {
        match self {
            FloatBits::Single(_) => 0xFF,
            FloatBits::Double(_) => 0x7FF,
        }
    }

    /// Whether the pattern is a NaN.
    pub open spec fn is_nan(self) -> bool {
        self.exponent_field() == self.top_exponent() && self.fraction_field() != 0
    }

    /// Whether the pattern is an infinity.
    pub open spec fn is_infinite(self) -> bool {
        self.exponent_field() == self.top_exponent() && self.fraction_field() == 0
    }

    /// For a finite pattern, the integer `m` with magnitude `m * 2^e`,
    /// where `e` is [`Self::exponent`]: the fraction, with the implicit
    /// leading one of a normal number.
    pub open spec fn significand(self) -> nat {
        if self.exponent_field() == 0 {
            self.fraction_field()
        } else {
            match self {
                FloatBits::Single(_) => self.fraction_field() + 0x80_0000,
                FloatBits::Double(_) => self.fraction_field() + 0x10_0000_0000_0000,
            }
        }
    }

    /// For a finite pattern, the power of two that scales
    /// [`Self::significand`].
    pub open spec fn exponent(self) -> int {
        let field = if self.exponent_field() == 0 {
            1
        } else {
            self.exponent_field() as int
        };
        match self {
            FloatBits::Single(_) => field - 150,
            FloatBits::Double(_) => field - 1075,
        }
    }

    /// The number times `scale`, rounded to the nearest integer (a half
    /// going up) and held within 64 unsigned bits: negative numbers and
    /// NaN give 0, what is too large gives the largest value.
    pub open spec fn scaled(self, scale: u64) -> u64 {
        if self.is_nan() || self.is_negative() {
            0
        } else if self.is_infinite() {
            u64::MAX
        } else {
            let exact = round_shift(self.significand() * (scale as nat), self.exponent());
            if exact > u64::MAX {
                u64::MAX
            } else {
                exact as u64
            }
        }
    }

    /// Splits a finite pattern into its significand and exponent.
    fn decompose(&self) -> (parts: (u64, i32))
        requires
            self.exponent_field() != self.top_exponent(),
        ensures
            parts.0 == self.significand(),
            parts.1 == self.exponent(),
            parts.0 < 0x20_0000_0000_0000,
            -1074 <= parts.1 <= 971,
    {
        match *self {
            FloatBits::Single(bits) => {
                let field = (bits / 0x80_0000) % 0x100;
                let fraction = bits % 0x80_0000;
                if field == 0 {
                    (fraction as u64, -149)
                } else {
                    ((fraction + 0x80_0000) as u64, field as i32 - 150)
                }
            },
            FloatBits::Double(bits) => {
                let field = (bits / 0x10_0000_0000_0000) % 0x800;
                let fraction = bits % 0x10_0000_0000_0000;
                if field == 0 {
                    (fraction, -1074)
                } else {
                    (fraction + 0x10_0000_0000_0000, field as i32 - 1075)
                }
            },
        }
    }

    /// Whether the pattern is finite, not negative and not NaN: the other
    /// patterns scale to a fixed value.
    fn classify(&self) -> (class: (bool, bool, bool))
        ensures
            class.0 == self.is_nan(),
            class.1 == self.is_negative(),
            class.2 == self.is_infinite(),
    {
        match *self {
            FloatBits::Single(bits) => {
                let top = (bits / 0x80_0000) % 0x100 == 0xFF;
                let fraction = bits % 0x80_0000;
                (top && fraction != 0, bits >= 0x8000_0000, top && fraction == 0)
            },
            FloatBits::Double(bits) => {
                let top = (bits / 0x10_0000_0000_0000) % 0x800 == 0x7FF;
                let fraction = bits % 0x10_0000_0000_0000;
                (top && fraction != 0, bits >= 0x8000_0000_0000_0000, top && fraction == 0)
            },
        }
    }

    /// Multiplies the number by `scale` and rounds to the nearest integer.
    ///
    /// The product is formed exactly, not in floating point. Negative
    /// numbers and NaN give 0; what does not fit gives `u64::MAX`.
    pub fn scale(&self, scale: u64) -> (nanos: u64)
        ensures
            nanos == self.scaled(scale),
    {
        let (nan, negative, infinite) = self.classify();
        if nan || negative {
            return 0;
        }
        if infinite {
            return u64::MAX;
        }
        let (m, e) = self.decompose();
        proof {
            lemma2_to64();
            lemma2_to64_rest();
            assert(m * scale < 0x20_0000_0000_0000 * 0x1_0000_0000_0000_0000) by (nonlinear_arith)
                requires
                    0 <= m < 0x20_0000_0000_0000,
                    0 <= scale < 0x1_0000_0000_0000_0000,
            ;
        }
        let p: u128 = (m as u128) * (scale as u128);
        if e >= 0 {
            if p == 0 {
                proof {
                    assert(0 * pow2(e as nat) == 0) by (nonlinear_arith);
                }
                0
            } else if e >= 64 {
                proof {
                    if e > 64 {
                        lemma_pow2_strictly_increases(64, e as nat);
                    }
                    assert(p * pow2(e as nat) >= pow2(64)) by (nonlinear_arith)
                        requires
                            p >= 1,
                            pow2(e as nat) >= pow2(64),
                    ;
                }
                u64::MAX
            } else {
                let q = power_of_two(e as u32);
                proof {
                    lemma_pow2_strictly_increases(e as nat, 64);
                }
                let limit: u128 = 0xFFFF_FFFF_FFFF_FFFF;
                if p > limit / q {
                    proof {
                        assert(p * q > limit) by (nonlinear_arith)
                            requires
                                p > limit / q,
                                q > 0,
                        ;
                    }
                    u64::MAX
                } else {
                    proof {
                        assert(p * q <= limit) by (nonlinear_arith)
                            requires
                                p <= limit / q,
                                q > 0,
                        ;
                    }
                    (p * q) as u64
                }
            }
        } else {
            let k: u32 = (-e) as u32;
            if k > 120 {
                proof {
                    let half = pow2((k - 1) as nat) as int;
                    lemma_pow2_unfold(k as nat);
                    if k - 1 > 120 {
                        lemma_pow2_strictly_increases(120, (k - 1) as nat);
                    }
                    lemma_pow2_adds(64, 56);
                    assert(pow2(120) == 0x1_0000_0000_0000_0000 * 0x100_0000_0000_0000);
                    assert(p < pow2(120));
                    assert((p as int + half) / (2 * half) == 0) by (nonlinear_arith)
                        requires
                            0 <= p < half,
                    ;
                }
                0
            } else {
                let q = power_of_two(k);
                let half = power_of_two(k - 1);
                proof {
                    lemma_pow2_adds(64, 56);
                    if k - 1 < 120 {
                        lemma_pow2_strictly_increases((k - 1) as nat, 120);
                    }
                    assert(pow2(120) == 0x1_0000_0000_0000_0000 * 0x100_0000_0000_0000);
                }
                let rounded = (p + half) / q;
                if rounded > 0xFFFF_FFFF_FFFF_FFFF {
                    u64::MAX
                } else {
                    rounded as u64
                }
            }
        }
    }
}

/// Two to the power `k`.
fn power_of_two(k: u32) -> (power: u128)
    requires
        k <= 120,
    ensures
        power == pow2(k as nat),
        power > 0,
{
    let mut power: u128 = 1;
    let mut i: u32 = 0;
    proof {
        lemma2_to64();
    }
    while i < k
        invariant
            i <= k <= 120,
            power == pow2(i as nat),
            power > 0,
        decreases k - i,
    {
        proof {
            lemma_pow2_unfold((i + 1) as nat);
            lemma_pow2_adds(64, 56);
            lemma2_to64();
            lemma2_to64_rest();
            if i + 1 < 120 {
                lemma_pow2_strictly_increases((i + 1) as nat, 120);
            }
            assert(pow2(120) == 0x1_0000_0000_0000_0000 * 0x100_0000_0000_0000);
        }
        power = power * 2;
        i = i + 1;
    }
    power
}

} // verus!
