//! Motor power from the power ceiling, the pedal assist level and the brake.
//!
//! Both percentages become single-precision factors between zero and one, the
//! ceiling is multiplied by them one after the other, each step is rounded to
//! single precision, and the result is truncated to a whole number. The numbers
//! on the way are counts of `UNIT`: the smallest nonzero one is about a ten
//! thousandth, whose 24-bit significand ends exactly at that unit.
use vstd::prelude::*;
use crate::rounding::{rounded, representable, round_quotient};
use crate::rounding::{
    lemma_rounded_exact, lemma_rounded_monotone, lemma_rounded_relative_error,
    lemma_rounded_representable,
};
use vstd::arithmetic::power2::pow2;

verus! {

/// How many counts make one whole: two to the power of 37.
pub const UNIT: u128 = 0x20_0000_0000;

/// A whole hundred percent.
pub const FULL_SCALE: u8 = 100;

/// A percentage as a factor, rounded to single precision.
pub open spec fn factor(percent: nat) -> nat {
    rounded(percent * UNIT as nat, FULL_SCALE as nat)
}

/// The product of two single-precision numbers, rounded to single precision.
pub open spec fn product(a: nat, b: nat) -> nat {
    rounded(a * b, UNIT as nat)
}

/// The power ceiling `limit` scaled by the pedal assist level.
pub open spec fn pedalled(limit: nat, pas: nat) -> nat {
    product(limit * UNIT as nat, factor(pas))
}

/// A number scaled by what the brake leaves over.
pub open spec fn braked(level: nat, brake: nat) -> nat {
    product(level, factor((FULL_SCALE - brake) as nat))
}

/// Motor power under active assist: the ceiling, scaled by the pedal assist
/// level and then by what the brake leaves over, without its fraction.
pub open spec fn assist_power(limit: nat, pas: nat, brake: nat) -> nat {
    braked(pedalled(limit, pas), brake) / UNIT as nat
}

/// The most power that the brake allows: the ceiling, scaled by what the brake
/// leaves over, without its fraction.
pub open spec fn brake_ceiling(limit: nat, brake: nat) -> nat {
    braked(limit * UNIT as nat, brake) / UNIT as nat
}

proof fn lemma_unit()
    ensures
        UNIT == pow2(37),
{
    vstd::arithmetic::power2::lemma2_to64_rest();
}

/// A whole number below two to the power of 24 has a 24-bit significand.
proof fn lemma_whole_representable(x: nat)
    requires
        x < 0x100_0000,
    ensures
        representable(x * UNIT as nat),
{
    lemma_unit();
    assert(x * UNIT as nat == x * pow2(37));
}

/// Multiplying by one changes nothing.
proof fn lemma_product_by_one(a: nat)
    requires
        representable(a),
    ensures
        product(a, UNIT as nat) == a,
{
    let (m, j) = choose|m: nat, j: nat| m < 0x100_0000 && a == #[trigger] (m * pow2(j));
    lemma_rounded_exact(a * UNIT as nat, UNIT as nat, m, j);
}

proof fn lemma_product_monotone(a1: nat, b1: nat, a2: nat, b2: nat)
    requires
        a1 <= a2,
        b1 <= b2,
    ensures
        product(a1, b1) <= product(a2, b2),
{
    assert(a1 * b1 * UNIT <= a2 * b2 * UNIT) by (nonlinear_arith)
        requires
            a1 <= a2,
            b1 <= b2,
    ;
    lemma_rounded_monotone(a1 * b1, UNIT as nat, a2 * b2, UNIT as nat);
}

/// Multiplying by a factor of at most one gives at most the number itself.
proof fn lemma_product_at_most(a: nat, b: nat)
    requires
        representable(a),
        b <= UNIT,
    ensures
        product(a, b) <= a,
{
    lemma_product_by_one(a);
    lemma_product_monotone(a, b, a, UNIT as nat);
}

/// Multiplying by zero gives zero.
proof fn lemma_product_by_zero(a: nat, b: nat)
    requires
        a == 0 || b == 0,
    ensures
        product(a, b) == 0,
{
    assert(a * b == 0) by (nonlinear_arith)
        requires
            a == 0 || b == 0,
    ;
    lemma_rounded_exact(0, UNIT as nat, 0, 37);
}

/// Without ceiling, pedalling or brake clearance nothing is left.
proof fn lemma_no_power(limit: nat, pas: nat, left: nat)
    requires
        limit == 0 || pas == 0 || left == 0,
    ensures
        product(pedalled(limit, pas), factor(left)) == 0,
        limit == 0 || left == 0 ==> product(limit * UNIT as nat, factor(left)) == 0,
{
    lemma_factor_range(0);
    if limit == 0 || pas == 0 {
        lemma_product_by_zero(limit * UNIT as nat, factor(pas));
    }
    lemma_product_by_zero(pedalled(limit, pas), factor(left));
    if limit == 0 || left == 0 {
        lemma_product_by_zero(limit * UNIT as nat, factor(left));
    }
}

proof fn lemma_factor_monotone(x: nat, y: nat)
    requires
        x <= y,
    ensures
        factor(x) <= factor(y),
{
    lemma_rounded_monotone(x * UNIT as nat, FULL_SCALE as nat, y * UNIT as nat, FULL_SCALE as nat);
}

/// The factor of nothing is zero, of the full scale one, and of anything between
/// it lies between.
proof fn lemma_factor_range(percent: nat)
    requires
        percent <= FULL_SCALE,
    ensures
        factor(percent) <= UNIT,
        percent == 0 ==> factor(percent) == 0,
        percent == FULL_SCALE ==> factor(percent) == UNIT,
{
    lemma_unit();
    lemma_rounded_exact(FULL_SCALE as nat * UNIT as nat, FULL_SCALE as nat, 1, 37);
    lemma_rounded_exact(0, FULL_SCALE as nat, 0, 37);
    lemma_factor_monotone(percent, FULL_SCALE as nat);
}

/// The numbers on the way to the motor power fit single precision and only fall.
proof fn lemma_power_range(limit: nat, pas: nat, brake: nat)
    requires
        limit < 0x100_0000,
        pas <= FULL_SCALE,
        brake <= FULL_SCALE,
    ensures
        factor(pas) <= UNIT,
        factor((FULL_SCALE - brake) as nat) <= UNIT,
        pedalled(limit, pas) <= limit * UNIT,
        braked(pedalled(limit, pas), brake) <= limit * UNIT,
        braked(limit * UNIT as nat, brake) <= limit * UNIT,
{
    let whole = limit * UNIT as nat;
    lemma_factor_range(pas);
    lemma_factor_range((FULL_SCALE - brake) as nat);
    lemma_whole_representable(limit);
    lemma_product_at_most(whole, factor(pas));
    lemma_rounded_representable(whole * factor(pas), UNIT as nat);
    lemma_product_at_most(pedalled(limit, pas), factor((FULL_SCALE - brake) as nat));
    lemma_product_at_most(whole, factor((FULL_SCALE - brake) as nat));
}

/// A percentage as a single-precision factor.
fn percent_factor(percent: u8) -> (f: u128)
    requires
        percent <= FULL_SCALE,
    ensures
        f == factor(percent as nat),
        f <= UNIT,
{
    proof {
        lemma_factor_range(percent as nat);
    }
    round_quotient(percent as u128 * UNIT, FULL_SCALE as u128)
}

/// The single-precision product of a number and a factor.
fn scaled_product(a: u128, b: u128) -> (r: u128)
    requires
        a <= 0x100 * UNIT,
        b <= UNIT,
    ensures
        r == product(a as nat, b as nat),
{
    assert(a * b <= 0x100 * UNIT * UNIT) by (nonlinear_arith)
        requires
            a <= 0x100 * UNIT,
            b <= UNIT,
    ;
    round_quotient(a * b, UNIT)
}

/// Motor power under active assist.
pub fn compute_assist_power(limit: u8, pas: u8, brake: u8) -> (power: u8)
    requires
        pas <= FULL_SCALE,
        brake <= FULL_SCALE,
    ensures
        power == assist_power(limit as nat, pas as nat, brake as nat),
        power <= limit,
{
    proof {
        lemma_power_range(limit as nat, pas as nat, brake as nat);
    }
    let pas_factor: u128 = percent_factor(pas);
    let brake_factor: u128 = percent_factor(FULL_SCALE - brake);
    let pedalled_level: u128 = scaled_product(limit as u128 * UNIT, pas_factor);
    let braked_level: u128 = scaled_product(pedalled_level, brake_factor);
    (braked_level / UNIT) as u8
}

/// The most power that the brake allows.
pub fn compute_brake_ceiling(limit: u8, brake: u8) -> (power: u8)
    requires
        brake <= FULL_SCALE,
    ensures
        power == brake_ceiling(limit as nat, brake as nat),
        power <= limit,
{
    proof {
        lemma_power_range(limit as nat, 0, brake as nat);
    }
    let brake_factor: u128 = percent_factor(FULL_SCALE - brake);
    let level: u128 = scaled_product(limit as u128 * UNIT, brake_factor);
    (level / UNIT) as u8
}

/// More pedalling, a higher ceiling or less brake never gives less power.
pub proof fn law_assist_power_monotone(
    limit1: nat,
    pas1: nat,
    brake1: nat,
    limit2: nat,
    pas2: nat,
    brake2: nat,
)
    requires
        limit1 <= limit2,
        pas1 <= pas2,
        brake2 <= brake1 <= FULL_SCALE,
    ensures
        assist_power(limit1, pas1, brake1) <= assist_power(limit2, pas2, brake2),
        brake_ceiling(limit1, brake1) <= brake_ceiling(limit2, brake2),
{
    let left1 = (FULL_SCALE - brake1) as nat;
    let left2 = (FULL_SCALE - brake2) as nat;
    let whole1 = limit1 * UNIT as nat;
    let whole2 = limit2 * UNIT as nat;
    lemma_factor_monotone(pas1, pas2);
    lemma_factor_monotone(left1, left2);
    lemma_product_monotone(whole1, factor(pas1), whole2, factor(pas2));
    lemma_product_monotone(pedalled(limit1, pas1), factor(left1), pedalled(limit2, pas2), factor(left2));
    lemma_product_monotone(whole1, factor(left1), whole2, factor(left2));
}

/// Motor power never exceeds the power ceiling, nor what the brake allows.
pub proof fn law_assist_power_bounded(limit: nat, pas: nat, brake: nat)
    requires
        limit <= 0xff,
        pas <= FULL_SCALE,
        brake <= FULL_SCALE,
    ensures
        assist_power(limit, pas, brake) <= brake_ceiling(limit, brake) <= limit,
{
    lemma_power_range(limit, pas, brake);
    lemma_product_monotone(
        pedalled(limit, pas),
        factor((FULL_SCALE - brake) as nat),
        limit * UNIT as nat,
        factor((FULL_SCALE - brake) as nat),
    );
}

/// Without pedalling, or with the brake fully applied, there is no power; with
/// full pedalling and no brake there is all of it.
pub proof fn law_assist_power_extremes(limit: nat, pas: nat, brake: nat)
    requires
        limit <= 0xff,
        pas <= FULL_SCALE,
        brake <= FULL_SCALE,
    ensures
        pas == 0 || brake == FULL_SCALE ==> assist_power(limit, pas, brake) == 0,
        pas == FULL_SCALE && brake == 0 ==> assist_power(limit, pas, brake) == limit,
        brake == FULL_SCALE ==> brake_ceiling(limit, brake) == 0,
        brake == 0 ==> brake_ceiling(limit, brake) == limit,
{
    lemma_power_range(limit, pas, brake);
    lemma_factor_range(pas);
    lemma_factor_range((FULL_SCALE - brake) as nat);
    lemma_whole_representable(limit);
    lemma_product_by_one(limit * UNIT as nat);
    lemma_rounded_representable(limit * UNIT as nat * factor(pas), UNIT as nat);
    lemma_product_by_one(pedalled(limit, pas));
    if pas == 0 || brake == FULL_SCALE {
        lemma_no_power(limit, pas, (FULL_SCALE - brake) as nat);
    }
}

/// What the brake allows is the power of full pedalling.
pub proof fn law_brake_ceiling_is_full_assist(limit: nat, brake: nat)
    requires
        limit <= 0xff,
        brake <= FULL_SCALE,
    ensures
        brake_ceiling(limit, brake) == assist_power(limit, FULL_SCALE as nat, brake),
{
    lemma_factor_range(FULL_SCALE as nat);
    lemma_whole_representable(limit);
    lemma_product_by_one(limit * UNIT as nat);
}

/// Motor power takes four roundings: of each percentage over a hundred, of the
/// ceiling times the first, and of that times the second; only then is the
/// fraction cut off. What the brake allows takes two.
pub proof fn law_each_step_rounds_once(limit: nat, pas: nat, brake: nat)
    requires
        brake <= 100,
    ensures
        ({
            let one: nat = 0x20_0000_0000;
            let pas_factor = rounded(pas * one, 100);
            let brake_factor = rounded((100 - brake) as nat * one, 100);
            let level = rounded(limit * one * pas_factor, one);
            &&& assist_power(limit, pas, brake) == rounded(level * brake_factor, one) / one
            &&& brake_ceiling(limit, brake) == rounded(limit * one * brake_factor, one) / one
        }),
{
}

/// Nonzero percentages and ceilings keep the numbers on the way well above zero.
proof fn lemma_least_levels(limit: nat, pas: nat)
    requires
        0 < limit,
        0 < pas,
    ensures
        factor(pas) >= 1_374_389_000,
        pedalled(limit, pas) >= 1_374_389_000,
{
    let one = UNIT as nat;
    let least = factor(1);
    lemma_rounded_relative_error(one, FULL_SCALE as nat);
    lemma_factor_monotone(1, pas);
    assert(one <= limit * one) by (nonlinear_arith)
        requires
            0 < limit,
    ;
    lemma_rounded_representable(one, FULL_SCALE as nat);
    assert(product(one, least) == least) by {
        lemma_product_by_one(least);
        assert(one * least == least * one) by (nonlinear_arith);
    }
    lemma_product_monotone(one, least, limit * one, factor(pas));
}

/// Every nonzero number on the way to the motor power keeps a full 24-bit
/// significand at the chosen unit, so that counting in that unit loses nothing.
pub proof fn law_full_precision(limit: nat, pas: nat, brake: nat)
    requires
        0 < limit,
        0 < pas,
        brake < FULL_SCALE,
    ensures
        2 * factor(pas) >= 0x100_0000,
        2 * factor((FULL_SCALE - brake) as nat) >= 0x100_0000,
        2 * pedalled(limit, pas) >= 0x100_0000,
        2 * braked(limit * UNIT as nat, brake) >= 0x100_0000,
        2 * braked(pedalled(limit, pas), brake) >= 0x100_0000,
{
    let left = (FULL_SCALE - brake) as nat;
    let b = pedalled(limit, pas);
    let c = factor(left);
    lemma_least_levels(limit, pas);
    lemma_least_levels(limit, left);
    assert(1_374_389_000 * 1_374_389_000 <= b * c) by (nonlinear_arith)
        requires
            1_374_389_000 <= b,
            1_374_389_000 <= c,
    ;
    lemma_rounded_relative_error(b * c, UNIT as nat);
}

/// Rounding never carries the power past the exact fraction: it is the whole part
/// of `limit * pas * (100 - brake) / 10000`, except that where this fraction is
/// itself whole, the power may come out one lower.
pub proof fn law_assist_power_near_exact(limit: nat, pas: nat, brake: nat)
    requires
        limit <= 0xff,
        pas <= FULL_SCALE,
        brake <= FULL_SCALE,
    ensures
        ({
            let exact = limit * pas * (FULL_SCALE - brake);
            let power = assist_power(limit, pas, brake) as int;
            ||| power == exact / 10_000
            ||| exact % 10_000 == 0 && power + 1 == exact / 10_000
        }),
{
    let left = (FULL_SCALE - brake) as nat;
    let exact = limit * pas * left;
    let u = UNIT as int;
    let d = braked(pedalled(limit, pas), brake) as int;
    if limit == 0 || pas == 0 || left == 0 {
        lemma_no_power(limit, pas, left);
        assert(exact == 0) by (nonlinear_arith)
            requires
                limit == 0 || pas == 0 || left == 0,
                exact == limit * pas * left,
        ;
    } else {
        lemma_near_exact(limit, pas, left);
        assert(exact == limit * pas * (FULL_SCALE - brake));
        let w = d / u;
        assert(w * u <= d < (w + 1) * u) by (nonlinear_arith)
            requires
                w == d / u,
                u > 0,
        ;
        assert(10_000 * w < exact + 1) by (nonlinear_arith)
            requires
                w * u <= d,
                10_000 * d < u * (exact + 1),
                u > 0,
        ;
        assert(exact - 1 < 10_000 * (w + 1)) by (nonlinear_arith)
            requires
                d < (w + 1) * u,
                u * (exact - 1) < 10_000 * d,
                u > 0,
        ;
    }
}

/// Four roundings together move the power by less than a ten thousandth.
proof fn lemma_near_exact(limit: nat, pas: nat, left: nat)
    requires
        0 < limit <= 0xff,
        0 < pas <= FULL_SCALE,
        0 < left <= FULL_SCALE,
    ensures
        10_000 * product(pedalled(limit, pas), factor(left)) < UNIT * (limit * pas * left + 1),
        UNIT * (limit * pas * left - 1) < 10_000 * product(pedalled(limit, pas), factor(left)),
{
    let u = UNIT as int;
    let s: int = 0x100_0000;
    let a = factor(pas) as int;
    let b = pedalled(limit, pas) as int;
    let c = factor(left) as int;
    let d = product(b as nat, c as nat) as int;
    lemma_least_levels(limit, pas);
    lemma_least_levels(limit, left);
    lemma_rounded_relative_error(pas * UNIT as nat, FULL_SCALE as nat);
    lemma_rounded_relative_error(left * UNIT as nat, FULL_SCALE as nat);
    assert(1_374_389_000 * u <= limit * u * a) by (nonlinear_arith)
        requires
            1_374_389_000 <= a,
            0 < limit,
            0 < u,
    ;
    lemma_rounded_relative_error(limit * UNIT as nat * factor(pas), UNIT as nat);
    assert(b * s <= limit * a * (s + 1) && limit * a * (s - 1) <= b * s) by (nonlinear_arith)
        requires
            b * u * s <= limit * u * a * (s + 1),
            limit * u * a * (s - 1) <= b * u * s,
            u > 0,
    ;
    assert(1_374_389_000 * 1_374_389_000 <= b * c) by (nonlinear_arith)
        requires
            1_374_389_000 <= b,
            1_374_389_000 <= c,
    ;
    lemma_rounded_relative_error(b as nat * c as nat, UNIT as nat);
    let exact = limit * pas * left;
    assert(exact <= 2_550_000) by (nonlinear_arith)
        requires
            limit <= 0xff,
            pas <= 100,
            left <= 100,
            exact == limit * pas * left,
    ;
    lemma_chain_above(limit as int, pas as int, left as int, u, s, s + 1, a, b, c, d);
    lemma_chain_below(limit as int, pas as int, left as int, u, s, s - 1, a, b, c, d);
    let s4 = s * s * s * s;
    let up4 = (s + 1) * (s + 1) * (s + 1) * (s + 1);
    let down4 = (s - 1) * (s - 1) * (s - 1) * (s - 1);
    assert(s4 == 0x1000000000000000000000000 && up4 == 0x1000004000006000004000001 && down4 == 0xfffffc000005fffffc000001)
        by (nonlinear_arith)
        requires
            s == 0x100_0000,
            s4 == s * s * s * s,
            up4 == (s + 1) * (s + 1) * (s + 1) * (s + 1),
            down4 == (s - 1) * (s - 1) * (s - 1) * (s - 1),
    ;
    assert(exact * up4 < (exact + 1) * s4);
    assert((exact - 1) * s4 < exact * down4);
    assert(10_000 * d < u * (exact + 1)) by (nonlinear_arith)
        requires
            10_000 * d * s4 <= exact * u * up4,
            exact * up4 < (exact + 1) * s4,
            u > 0,
            s4 > 0,
    ;
    assert(u * (exact - 1) < 10_000 * d) by (nonlinear_arith)
        requires
            exact * u * down4 <= 10_000 * d * s4,
            (exact - 1) * s4 < exact * down4,
            u > 0,
            s4 > 0,
    ;
}

proof fn lemma_rearranged(limit: int, pas: int, left: int, u: int, t: int)
    ensures
        (limit * (pas * u * t) * t) * (left * u * t) * t == limit * pas * left * u * (t * t * t * t) * u,
{
    let g = limit * pas * u;
    let h = left * u;
    let t2 = t * t;
    let t4 = t * t * t * t;
    assert(limit * (pas * u * t) * t == g * t2) by (nonlinear_arith)
        requires
            g == limit * pas * u,
            t2 == t * t,
    ;
    assert((g * t2) * (h * t) * t == g * h * (t2 * t2)) by (nonlinear_arith)
        requires
            t2 == t * t,
    ;
    assert(t2 * t2 == t4) by (nonlinear_arith)
        requires
            t2 == t * t,
            t4 == t * t * t * t,
    ;
    assert(g * h == limit * pas * left * u * u) by (nonlinear_arith)
        requires
            g == limit * pas * u,
            h == left * u,
    ;
    let f = limit * pas * left * u;
    assert(f * u * t4 == f * t4 * u) by (nonlinear_arith);
}

/// Puts the upper bounds on four successive roundings together.
proof fn lemma_chain_above(
    limit: int,
    pas: int,
    left: int,
    u: int,
    s: int,
    t: int,
    a: int,
    b: int,
    c: int,
    d: int,
)
    requires
        0 <= limit,
        0 <= pas,
        0 <= left,
        0 < u,
        0 < s,
        0 < t,
        0 <= a,
        0 <= b,
        0 <= c,
        a * 100 * s <= pas * u * t,
        b * s <= limit * a * t,
        c * 100 * s <= left * u * t,
        d * u * s <= b * c * t,
    ensures
        10_000 * d * (s * s * s * s) <= limit * pas * left * u * (t * t * t * t),
{
    let x = a * 100 * s;
    let y = c * 100 * s;
    let z = b * 100 * s * s;
    assert(z <= limit * x * t) by (nonlinear_arith)
        requires
            z == b * 100 * s * s,
            x == a * 100 * s,
            b * s <= limit * a * t,
            0 < s,
    ;
    assert(limit * x * t <= limit * (pas * u * t) * t) by (nonlinear_arith)
        requires
            x <= pas * u * t,
            0 <= limit,
            0 < t,
    ;
    let zz = limit * (pas * u * t) * t;
    let yy = left * u * t;
    assert(z * y <= zz * yy) by (nonlinear_arith)
        requires
            0 <= z <= zz,
            0 <= y <= yy,
    ;
    assert(10_000 * d * (s * s * s * s) * u == (d * u * s) * (10_000 * s * s * s)) by (nonlinear_arith);
    assert((b * c * t) * (10_000 * s * s * s) == z * y * t) by (nonlinear_arith)
        requires
            z == b * 100 * s * s,
            y == c * 100 * s,
    ;
    assert((d * u * s) * (10_000 * s * s * s) <= (b * c * t) * (10_000 * s * s * s)) by (nonlinear_arith)
        requires
            d * u * s <= b * c * t,
            0 < s,
    ;
    assert(z * y * t <= zz * yy * t) by (nonlinear_arith)
        requires
            z * y <= zz * yy,
            0 < t,
    ;
    lemma_rearranged(limit, pas, left, u, t);
    assert(10_000 * d * (s * s * s * s) <= limit * pas * left * u * (t * t * t * t)) by (nonlinear_arith)
        requires
            10_000 * d * (s * s * s * s) * u <= limit * pas * left * u * (t * t * t * t) * u,
            0 < u,
    ;
}

/// Puts the lower bounds on four successive roundings together.
proof fn lemma_chain_below(
    limit: int,
    pas: int,
    left: int,
    u: int,
    s: int,
    t: int,
    a: int,
    b: int,
    c: int,
    d: int,
)
    requires
        0 <= limit,
        0 <= pas,
        0 <= left,
        0 < u,
        0 < s,
        0 < t,
        0 <= a,
        0 <= b,
        0 <= c,
        pas * u * t <= a * 100 * s,
        limit * a * t <= b * s,
        left * u * t <= c * 100 * s,
        b * c * t <= d * u * s,
    ensures
        limit * pas * left * u * (t * t * t * t) <= 10_000 * d * (s * s * s * s),
{
    let x = a * 100 * s;
    let y = c * 100 * s;
    let z = b * 100 * s * s;
    assert(limit * x * t <= z) by (nonlinear_arith)
        requires
            z == b * 100 * s * s,
            x == a * 100 * s,
            limit * a * t <= b * s,
            0 < s,
    ;
    let zz = limit * (pas * u * t) * t;
    let yy = left * u * t;
    assert(0 <= zz <= limit * x * t) by (nonlinear_arith)
        requires
            zz == limit * (pas * u * t) * t,
            0 <= pas,
            0 < u,
            pas * u * t <= x,
            0 <= limit,
            0 < t,
    ;
    assert(0 <= yy) by (nonlinear_arith)
        requires
            yy == left * u * t,
            0 <= left,
            0 < u,
            0 < t,
    ;
    assert(zz * yy <= z * y) by (nonlinear_arith)
        requires
            0 <= zz <= z,
            0 <= yy <= y,
    ;
    assert(10_000 * d * (s * s * s * s) * u == (d * u * s) * (10_000 * s * s * s)) by (nonlinear_arith);
    assert((b * c * t) * (10_000 * s * s * s) == z * y * t) by (nonlinear_arith)
        requires
            z == b * 100 * s * s,
            y == c * 100 * s,
    ;
    assert((b * c * t) * (10_000 * s * s * s) <= (d * u * s) * (10_000 * s * s * s)) by (nonlinear_arith)
        requires
            b * c * t <= d * u * s,
            0 < s,
    ;
    assert(zz * yy * t <= z * y * t) by (nonlinear_arith)
        requires
            zz * yy <= z * y,
            0 < t,
    ;
    lemma_rearranged(limit, pas, left, u, t);
    assert(limit * pas * left * u * (t * t * t * t) <= 10_000 * d * (s * s * s * s)) by (nonlinear_arith)
        requires
            limit * pas * left * u * (t * t * t * t) * u <= 10_000 * d * (s * s * s * s) * u,
            0 < u,
    ;
}

} // verus!
