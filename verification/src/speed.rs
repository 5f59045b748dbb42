//! Speed readings in single precision, held by their bit pattern.
//!
//! A reading is one sign bit, eight bits of exponent and 23 bits of fraction.
//! Any pattern can come from the sensor, those of infinities and of no number at
//! all included.
use vstd::prelude::*;
use vstd::arithmetic::power2::pow2;
use vstd::arithmetic::power2::{lemma_pow2_adds, lemma_pow2_pos, lemma_pow2_unfold};
use crate::rounding::lemma_pow2_monotone;

verus! {

/// One more than the largest fraction: two to the power of 23.
pub const FRACTION_LIMIT: u32 = 0x80_0000;

/// The sign bit.
pub const SIGN_BIT: u32 = 0x8000_0000;

/// The exponent field of infinities and of patterns that are no number.
pub const SPECIAL_EXPONENT: u32 = 0xff;

/// A speed in km/h as the bit pattern of a single-precision number.
#[derive(Debug, Clone, Copy)]
pub struct Speed {
    pub bits: u32,
}

/// The speed from which on the motor gives no active assist, 25 km/h, as a bit
/// pattern.
pub const SPEED_LIMIT: u32 = 0x41C8_0000;

/// The absolute value behind a bit pattern, counted in units of two to the power
/// of -149, the smallest difference that single precision knows. An infinity
/// counts as one step beyond the largest finite number.
pub open spec fn magnitude(bits: u32) -> nat {
    let exponent = bits / FRACTION_LIMIT % 0x100;
    let fraction = (bits % FRACTION_LIMIT) as nat;
    if exponent == 0 {
        fraction
    } else {
        (FRACTION_LIMIT as nat + fraction) * pow2((exponent - 1) as nat)
    }
}

/// A whole number of km/h in the same units.
pub open spec fn kmh(n: nat) -> int {
    n * pow2(149) as int
}

impl Speed {
    /// The signed value, in units of two to the power of -149.
    pub open spec fn value(self) -> int {
        if self.bits >= SIGN_BIT {
            -magnitude(self.bits)
        } else {
            magnitude(self.bits) as int
        }
    }

    /// Whether the pattern is a finite number.
    pub open spec fn finite(self) -> bool {
        self.bits / FRACTION_LIMIT % 0x100 != SPECIAL_EXPONENT
    }

    /// Whether the pattern is no number at all.
    pub open spec fn not_a_number(self) -> bool {
        !self.finite() && self.bits % FRACTION_LIMIT != 0
    }

    /// Whether this is a finite speed that is not negative.
    pub open spec fn valid(self) -> bool {
        self.finite() && self.value() >= 0
    }

    /// The speed with the given bit pattern.
    pub fn from_bits(bits: u32) -> (speed: Speed)
        ensures
            speed.bits == bits,
    {
        Speed { bits }
    }

    /// The bit pattern of this speed.
    pub fn to_bits(self) -> (bits: u32)
        ensures
            bits == self.bits,
    {
        self.bits
    }

    /// Whether this is neither infinite nor no number at all.
    pub fn is_finite(self) -> (r: bool)
        ensures
            r == self.finite(),
    {
        self.bits / FRACTION_LIMIT % 0x100 != SPECIAL_EXPONENT
    }

    /// Whether this is no number at all.
    pub fn is_nan(self) -> (r: bool)
        ensures
            r == self.not_a_number(),
    {
        !self.is_finite() && self.bits % FRACTION_LIMIT != 0
    }

    /// Whether both are numbers and this one is less.
    pub fn is_below(self, other: Speed) -> (r: bool)
        ensures
            r == (!self.not_a_number() && !other.not_a_number() && self.value() < other.value()),
    {
        proof {
            lemma_rank_orders(self, other);
        }
        !self.is_nan() && !other.is_nan() && self.rank() < other.rank()
    }

    /// Whether this is a number below zero.
    pub fn is_negative(self) -> (r: bool)
        ensures
            r == (!self.not_a_number() && self.value() < 0),
    {
        assert(magnitude(0) == 0);
        self.is_below(Speed::from_bits(0))
    }

    /// Whether this is a number below the speed limit.
    pub fn is_below_limit(self) -> (r: bool)
        ensures
            r == (!self.not_a_number() && self.value() < kmh(25)),
    {
        proof {
            law_speed_limit();
        }
        self.is_below(Speed::from_bits(SPEED_LIMIT))
    }

    /// A whole number that grows with the value.
    spec fn ranked(self) -> int {
        if self.bits >= SIGN_BIT {
            SIGN_BIT - self.bits
        } else {
            self.bits as int
        }
    }

    fn rank(self) -> (r: i64)
        ensures
            r == self.ranked(),
    {
        if self.bits >= SIGN_BIT {
            SIGN_BIT as i64 - self.bits as i64
        } else {
            self.bits as i64
        }
    }
}

/// Without its sign bit, a larger pattern is a larger absolute value.
proof fn lemma_magnitude_grows(x: u32, y: u32)
    requires
        x < y < SIGN_BIT,
    ensures
        magnitude(x) < magnitude(y),
{
    let ex = x / FRACTION_LIMIT;
    let ey = y / FRACTION_LIMIT;
    let fx = (x % FRACTION_LIMIT) as nat;
    let fy = (y % FRACTION_LIMIT) as nat;
    let limit = FRACTION_LIMIT as nat;
    if ey > 0 {
        let step = pow2((ey - 1) as nat);
        lemma_pow2_pos((ey - 1) as nat);
        if ex == ey {
            assert((limit + fx) * step < (limit + fy) * step) by (nonlinear_arith)
                requires
                    fx < fy,
                    step > 0,
            ;
        } else {
            assert(limit * step <= (limit + fy) * step) by (nonlinear_arith);
            if ex > 0 {
                let small = pow2((ex - 1) as nat);
                lemma_pow2_pos((ex - 1) as nat);
                lemma_pow2_unfold(ex as nat);
                lemma_pow2_monotone(ex as nat, (ey - 1) as nat);
                assert((limit + fx) * small < limit * step) by (nonlinear_arith)
                    requires
                        fx < limit,
                        2 * small <= step,
                        small > 0,
                ;
            } else {
                assert(fx < limit * step) by (nonlinear_arith)
                    requires
                        fx < limit,
                        step > 0,
                ;
            }
        }
    }
}

/// The absolute value does not depend on the sign bit.
proof fn lemma_magnitude_sign(bits: u32)
    requires
        bits >= SIGN_BIT,
    ensures
        magnitude(bits) == magnitude((bits - SIGN_BIT) as u32),
{
    let low = (bits - SIGN_BIT) as u32;
    assert(bits % FRACTION_LIMIT == low % FRACTION_LIMIT);
    assert(bits / FRACTION_LIMIT % 0x100 == low / FRACTION_LIMIT % 0x100);
}

/// The rank orders speeds as their values do.
proof fn lemma_rank_orders(a: Speed, b: Speed)
    ensures
        a.ranked() < b.ranked() <==> a.value() < b.value(),
{
    let ma = if a.bits >= SIGN_BIT { (a.bits - SIGN_BIT) as u32 } else { a.bits };
    let mb = if b.bits >= SIGN_BIT { (b.bits - SIGN_BIT) as u32 } else { b.bits };
    if a.bits >= SIGN_BIT {
        lemma_magnitude_sign(a.bits);
    }
    if b.bits >= SIGN_BIT {
        lemma_magnitude_sign(b.bits);
    }
    assert(magnitude(0) == 0);
    if ma > 0 {
        lemma_magnitude_grows(0, ma);
    }
    if mb > 0 {
        lemma_magnitude_grows(0, mb);
    }
    if ma < mb {
        lemma_magnitude_grows(ma, mb);
    } else if mb < ma {
        lemma_magnitude_grows(mb, ma);
    }
}

/// The speed limit is exactly 25 km/h.
pub proof fn law_speed_limit()
    ensures
        (Speed { bits: SPEED_LIMIT }).valid(),
        (Speed { bits: SPEED_LIMIT }).value() == kmh(25),
{
    let mantissa: nat = 25 * 0x8_0000;
    assert(0x41C8_0000u32 / 0x80_0000u32 % 0x100u32 == 131 && 0x41C8_0000u32 % 0x80_0000u32 == 0x48_0000);
    assert((Speed { bits: SPEED_LIMIT }).value() == mantissa * pow2(130));
    assert(pow2(19) == 0x8_0000) by {
        vstd::arithmetic::power2::lemma2_to64();
    }
    lemma_pow2_adds(19, 130);
    assert(25 * 0x8_0000 * pow2(130) == 25 * (pow2(19) * pow2(130))) by (nonlinear_arith)
        requires
            pow2(19) == 0x8_0000,
    ;
}

/// Which patterns are numbers, and which of these lie below zero.
pub proof fn law_speed_patterns(speed: Speed)
    ensures
        speed.finite() <==> speed.bits % 0x8000_0000 < 0x7F80_0000,
        speed.not_a_number() <==> speed.bits % 0x8000_0000 > 0x7F80_0000,
        speed.value() < 0 <==> speed.bits > 0x8000_0000,
        speed.value() == 0 <==> speed.bits == 0 || speed.bits == 0x8000_0000,
        speed.valid() <==> speed.bits < 0x7F80_0000 || speed.bits == 0x8000_0000,
{
    let bits = speed.bits;
    let low = bits % 0x8000_0000;
    assert(bits / FRACTION_LIMIT % 0x100 == low / FRACTION_LIMIT);
    assert(bits % FRACTION_LIMIT == low % FRACTION_LIMIT);
    lemma_rank_orders(speed, Speed { bits: 0 });
    lemma_rank_orders(Speed { bits: 0 }, speed);
    assert(magnitude(0) == 0);
}

/// Values are ordered as their patterns are: above zero a larger pattern is a
/// larger value, below zero a smaller one, and both zeros are equal.
pub proof fn law_speed_order(a: Speed, b: Speed)
    ensures
        a.bits < 0x8000_0000 && b.bits < 0x8000_0000 ==> (a.value() < b.value() <==> a.bits
            < b.bits),
        a.bits >= 0x8000_0000 && b.bits >= 0x8000_0000 ==> (a.value() < b.value() <==> b.bits
            < a.bits),
        a.bits >= 0x8000_0000 && b.bits < 0x8000_0000 ==> (a.value() < b.value() <==> a.bits
            > 0x8000_0000 || b.bits > 0),
        a.bits < 0x8000_0000 && b.bits >= 0x8000_0000 ==> !(a.value() < b.value()),
{
    lemma_rank_orders(a, b);
}

/// How far apart neighbouring patterns lie: one unit up to an exponent of one, and
/// twice as far with each exponent above; the sign bit turns the value round.
pub proof fn law_speed_steps(bits: u32)
    requires
        bits < 0x7F80_0000,
    ensures
        (Speed { bits: 0 }).value() == 0,
        bits < 0x100_0000 ==> (Speed { bits: (bits + 1) as u32 }).value() == (Speed {
            bits,
        }).value() + 1,
        bits >= 0x80_0000 ==> (Speed { bits: (bits + 1) as u32 }).value() == (Speed {
            bits,
        }).value() + pow2((bits / 0x80_0000 - 1) as nat),
        (Speed { bits: (bits + 0x8000_0000) as u32 }).value() == -(Speed { bits }).value(),
{
    let next = (bits + 1) as u32;
    lemma_magnitude_sign((bits + 0x8000_0000) as u32);
    let e = bits / FRACTION_LIMIT;
    let f = (bits % FRACTION_LIMIT) as nat;
    let limit = FRACTION_LIMIT as nat;
    vstd::arithmetic::power2::lemma2_to64();
    if e > 0 {
        let step = pow2((e - 1) as nat);
        if f + 1 < limit {
            assert(next / FRACTION_LIMIT == e && next % FRACTION_LIMIT == f + 1);
            assert((limit + (f + 1)) * step == (limit + f) * step + step) by (nonlinear_arith);
        } else {
            assert(next / FRACTION_LIMIT == e + 1 && next % FRACTION_LIMIT == 0);
            lemma_pow2_unfold(e as nat);
            assert(limit * (2 * step) == (limit + f) * step + step) by (nonlinear_arith)
                requires
                    f + 1 == limit,
            ;
        }
    } else if f + 1 < limit {
        assert(next / FRACTION_LIMIT == 0 && next % FRACTION_LIMIT == f + 1);
    } else {
        assert(next / FRACTION_LIMIT == 1 && next % FRACTION_LIMIT == 0);
    }
}

} // verus!
