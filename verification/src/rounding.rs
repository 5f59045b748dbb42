//! Round-to-nearest of exact quotients to a 24-bit significand.
//!
//! Motor power is computed in single precision. Every number that occurs there
//! is a whole multiple of one small fixed unit, so it is held as a plain integer
//! count of that unit; what remains of the floating-point arithmetic is the
//! rounding of each exact quotient to the 24 significant bits that single
//! precision keeps, ties going to the even significand.
use vstd::prelude::*;
use vstd::arithmetic::power2::pow2;
use vstd::arithmetic::power2::{lemma_pow2_adds, lemma_pow2_pos, lemma_pow2_unfold};

verus! {

/// One more than the largest significand: two to the power of 24.
pub const SIGNIFICAND_LIMIT: u128 = 0x100_0000;

/// The number of low-order bits that do not fit beside 24 significant bits of `q`.
pub open spec fn excess(q: nat) -> nat
    decreases q,
{
    if q < SIGNIFICAND_LIMIT {
        0
    } else {
        1 + excess(q / 2)
    }
}

/// The integer nearest to `n / d`, the even one of two equally near.
pub open spec fn nearest_even(n: nat, d: nat) -> nat {
    let q = n / d;
    let r = n % d;
    if 2 * r < d || (2 * r == d && q % 2 == 0) {
        q
    } else {
        q + 1
    }
}

/// The number with a 24-bit significand that is nearest to `n / d`, ties to even.
pub open spec fn rounded(n: nat, d: nat) -> nat {
    let unit = pow2(excess(n / d));
    nearest_even(n, d * unit) * unit
}

/// Whether `v` is a 24-bit significand shifted left by some number of bits.
pub open spec fn representable(v: nat) -> bool {
    exists|m: nat, j: nat| m < SIGNIFICAND_LIMIT && v == #[trigger] (m * pow2(j))
}

pub(crate) proof fn lemma_excess_bounds(q: nat)
    ensures
        pow2(excess(q)) > 0,
        q < SIGNIFICAND_LIMIT * pow2(excess(q)),
        excess(q) > 0 ==> 2 * q >= SIGNIFICAND_LIMIT * pow2(excess(q)),
    decreases q,
{
    lemma_pow2_pos(excess(q));
    if q < SIGNIFICAND_LIMIT {
        assert(pow2(0) == 1) by {
            vstd::arithmetic::power2::lemma2_to64();
        }
    } else {
        lemma_excess_bounds(q / 2);
        lemma_pow2_unfold(excess(q));
        if excess(q / 2) == 0 {
            assert(pow2(0) == 1) by {
                vstd::arithmetic::power2::lemma2_to64();
            }
        }
    }
}

pub(crate) proof fn lemma_nearest_even_bounds(n: nat, d: nat)
    requires
        d > 0,
    ensures
        2 * (nearest_even(n, d) * d) <= 2 * n + d,
        2 * n <= 2 * (nearest_even(n, d) * d) + d,
        2 * (nearest_even(n, d) * d) == 2 * n + d ==> nearest_even(n, d) % 2 == 0,
        2 * n == 2 * (nearest_even(n, d) * d) + d ==> nearest_even(n, d) % 2 == 0,
{
    let q = n / d;
    let r = n % d;
    assert(n == q * d + r && r < d) by (nonlinear_arith)
        requires
            d > 0,
            q == n / d,
            r == n % d,
    ;
    assert((q + 1) * d == q * d + d) by (nonlinear_arith);
}

/// Rounding to the nearest integer keeps the order of quotients.
pub(crate) proof fn lemma_nearest_even_monotone(n1: nat, d1: nat, n2: nat, d2: nat)
    requires
        d1 > 0,
        d2 > 0,
        n1 * d2 <= n2 * d1,
    ensures
        nearest_even(n1, d1) <= nearest_even(n2, d2),
{
    let v1 = nearest_even(n1, d1);
    let v2 = nearest_even(n2, d2);
    lemma_nearest_even_bounds(n1, d1);
    lemma_nearest_even_bounds(n2, d2);
    if v1 > v2 {
        let c1 = d1 as int;
        let c2 = d2 as int;
        assert((2 * v1 - 1) * (c1 * c2) <= 2 * (n1 * c2)) by (nonlinear_arith)
            requires
                2 * (v1 * c1) <= 2 * n1 + c1,
                c2 > 0,
        ;
        assert(2 * (n2 * c1) <= (2 * v2 + 1) * (c1 * c2)) by (nonlinear_arith)
            requires
                2 * n2 <= 2 * (v2 * c2) + c2,
                c1 > 0,
        ;
        assert(c1 * c2 > 0) by (nonlinear_arith)
            requires
                c1 > 0,
                c2 > 0,
        ;
        assert(2 * v1 - 1 <= 2 * v2 + 1) by (nonlinear_arith)
            requires
                (2 * v1 - 1) * (c1 * c2) <= (2 * v2 + 1) * (c1 * c2),
                c1 * c2 > 0,
        ;
        assert(v1 == v2 + 1);
        assert(2 * v1 - 1 == 2 * v2 + 1);
        assert((2 * v1 - 1) * (c1 * c2) == 2 * (n1 * c2));
        assert((2 * v2 + 1) * (c1 * c2) == 2 * (n2 * c1));
        assert(2 * (v1 * c1) == 2 * n1 + c1) by (nonlinear_arith)
            requires
                (2 * v1 - 1) * (c1 * c2) == 2 * (n1 * c2),
                c2 > 0,
        ;
        assert(2 * n2 == 2 * (v2 * c2) + c2) by (nonlinear_arith)
            requires
                (2 * v2 + 1) * (c1 * c2) == 2 * (n2 * c1),
                c1 > 0,
        ;
        assert(false);
    }
}

/// How `rounded` is built from its unit, and how far it lies from the quotient.
pub(crate) proof fn lemma_rounded_bounds(n: nat, d: nat)
    requires
        d > 0,
    ensures
        pow2(excess(n / d)) > 0,
        nearest_even(n, d * pow2(excess(n / d))) <= SIGNIFICAND_LIMIT,
        2 * (rounded(n, d) * d) <= 2 * n + d * pow2(excess(n / d)),
        2 * n <= 2 * (rounded(n, d) * d) + d * pow2(excess(n / d)),
        excess(n / d) > 0 ==> d * pow2(excess(n / d)) * SIGNIFICAND_LIMIT <= 2 * n,
        excess(n / d) > 0 ==> 2 * nearest_even(n, d * pow2(excess(n / d))) >= SIGNIFICAND_LIMIT,
{
    let q = n / d;
    let unit = pow2(excess(q));
    let wide = d * unit;
    let v = nearest_even(n, wide);
    lemma_excess_bounds(q);
    assert(q * d <= n < (q + 1) * d) by (nonlinear_arith)
        requires
            d > 0,
            q == n / d,
    ;
    assert(wide > 0) by (nonlinear_arith)
        requires
            d > 0,
            unit > 0,
            wide == d * unit,
    ;
    lemma_nearest_even_bounds(n, wide);
    assert(v * unit * d == v * wide) by (nonlinear_arith)
        requires
            wide == d * unit,
    ;
    assert(n < SIGNIFICAND_LIMIT * wide) by (nonlinear_arith)
        requires
            n < (q + 1) * d,
            q + 1 <= SIGNIFICAND_LIMIT * unit,
            wide == d * unit,
    ;
    assert(v <= SIGNIFICAND_LIMIT) by (nonlinear_arith)
        requires
            2 * (v * wide) <= 2 * n + wide,
            n < SIGNIFICAND_LIMIT * wide,
            wide > 0,
    ;
    if excess(q) > 0 {
        assert(wide * SIGNIFICAND_LIMIT <= 2 * n) by (nonlinear_arith)
            requires
                q * d <= n,
                2 * q >= SIGNIFICAND_LIMIT * unit,
                wide == d * unit,
        ;
        assert(2 * v >= SIGNIFICAND_LIMIT - 1) by (nonlinear_arith)
            requires
                2 * n <= 2 * (v * wide) + wide,
                wide * SIGNIFICAND_LIMIT <= 2 * n,
                wide > 0,
        ;
    }
}

/// Rounding a quotient of full precision moves it by at most one part in two to
/// the power of 24.
pub proof fn lemma_rounded_relative_error(n: nat, d: nat)
    requires
        d > 0,
        2 * n >= SIGNIFICAND_LIMIT * d,
    ensures
        rounded(n, d) * d * SIGNIFICAND_LIMIT <= n * (SIGNIFICAND_LIMIT + 1),
        n * (SIGNIFICAND_LIMIT - 1) <= rounded(n, d) * d * SIGNIFICAND_LIMIT,
{
    lemma_rounded_bounds(n, d);
    let wide = d * pow2(excess(n / d));
    assert(wide * SIGNIFICAND_LIMIT <= 2 * n) by {
        if excess(n / d) == 0 {
            vstd::arithmetic::power2::lemma2_to64();
            assert(wide == d);
        }
    }
}

/// Rounding keeps the order of quotients.
pub proof fn lemma_rounded_monotone(n1: nat, d1: nat, n2: nat, d2: nat)
    requires
        d1 > 0,
        d2 > 0,
        n1 * d2 <= n2 * d1,
    ensures
        rounded(n1, d1) <= rounded(n2, d2),
{
    let q1 = n1 / d1;
    let q2 = n2 / d2;
    let u1 = pow2(excess(q1));
    let u2 = pow2(excess(q2));
    let v1 = nearest_even(n1, d1 * u1);
    let v2 = nearest_even(n2, d2 * u2);
    lemma_rounded_bounds(n1, d1);
    lemma_rounded_bounds(n2, d2);
    assert(q1 <= q2) by (nonlinear_arith)
        requires
            d1 > 0,
            d2 > 0,
            n1 * d2 <= n2 * d1,
            q1 == n1 / d1,
            q2 == n2 / d2,
    ;
    lemma_excess_monotone(q1, q2);
    if excess(q1) == excess(q2) {
        assert(n1 * (d2 * u2) <= n2 * (d1 * u1)) by (nonlinear_arith)
            requires
                n1 * d2 <= n2 * d1,
                u1 == u2,
        ;
        assert(d1 * u1 > 0 && d2 * u2 > 0) by (nonlinear_arith)
            requires
                d1 > 0,
                d2 > 0,
                u1 > 0,
                u2 > 0,
        ;
        lemma_nearest_even_monotone(n1, d1 * u1, n2, d2 * u2);
        assert(v1 * u1 <= v2 * u2) by (nonlinear_arith)
            requires
                v1 <= v2,
                u1 == u2,
        ;
    } else {
        assert(2 * u1 <= u2) by {
            lemma_pow2_unfold(excess(q2));
            lemma_pow2_monotone(excess(q1), (excess(q2) - 1) as nat);
        }
        assert(v1 * u1 <= v2 * u2) by (nonlinear_arith)
            requires
                v1 <= SIGNIFICAND_LIMIT,
                2 * v2 >= SIGNIFICAND_LIMIT,
                2 * u1 <= u2,
        ;
    }
}

pub(crate) proof fn lemma_pow2_monotone(e1: nat, e2: nat)
    requires
        e1 <= e2,
    ensures
        pow2(e1) <= pow2(e2),
{
    if e1 < e2 {
        vstd::arithmetic::power2::lemma_pow2_strictly_increases(e1, e2);
    }
}

proof fn lemma_excess_monotone(q1: nat, q2: nat)
    requires
        q1 <= q2,
    ensures
        excess(q1) <= excess(q2),
    decreases q1,
{
    if q1 >= SIGNIFICAND_LIMIT {
        lemma_excess_monotone(q1 / 2, q2 / 2);
    }
}

/// A quotient that needs no more than 24 significant bits is not changed by rounding.
pub proof fn lemma_rounded_exact(n: nat, d: nat, m: nat, j: nat)
    requires
        d > 0,
        m < SIGNIFICAND_LIMIT,
        n == m * pow2(j) * d,
    ensures
        rounded(n, d) == m * pow2(j),
{
    let v = m * pow2(j);
    let k = excess(n / d);
    let unit = pow2(k);
    assert(n / d == v) by (nonlinear_arith)
        requires
            n == v * d,
            d > 0,
    ;
    lemma_excess_bounds(v);
    lemma_pow2_pos(j);
    if k > j {
        lemma_pow2_unfold(k);
        lemma_pow2_monotone(j, (k - 1) as nat);
        assert(v < SIGNIFICAND_LIMIT * pow2(j)) by (nonlinear_arith)
            requires
                v == m * pow2(j),
                m < SIGNIFICAND_LIMIT,
                pow2(j) > 0,
        ;
        assert(false);
    }
    let w = m * pow2((j - k) as nat);
    lemma_pow2_adds((j - k) as nat, k);
    assert(v == w * unit) by (nonlinear_arith)
        requires
            v == m * pow2(j),
            w == m * pow2((j - k) as nat),
            pow2(j) == pow2((j - k) as nat) * unit,
    ;
    let wide = d * unit;
    assert(wide > 0) by (nonlinear_arith)
        requires
            d > 0,
            unit > 0,
            wide == d * unit,
    ;
    assert(n == w * wide) by (nonlinear_arith)
        requires
            n == v * d,
            v == w * unit,
            wide == d * unit,
    ;
    assert(n / wide == w && n % wide == 0) by (nonlinear_arith)
        requires
            n == w * wide,
            wide > 0,
    ;
}

/// What rounding returns fits a 24-bit significand.
pub proof fn lemma_rounded_representable(n: nat, d: nat)
    requires
        d > 0,
    ensures
        representable(rounded(n, d)),
{
    lemma_rounded_bounds(n, d);
    let k = excess(n / d);
    let v = nearest_even(n, d * pow2(k));
    if v == SIGNIFICAND_LIMIT {
        lemma_pow2_unfold(k + 1);
        let half: nat = 0x80_0000;
        assert(v * pow2(k) == half * pow2(k + 1)) by (nonlinear_arith)
            requires
                v == 2 * half,
                pow2(k + 1) == 2 * pow2(k),
        ;
    } else {
        assert(rounded(n, d) == v * pow2(k));
    }
}

/// The distance between the quotient `n / d` and `v`, scaled by `d`.
pub open spec fn distance(n: nat, d: nat, v: nat) -> nat {
    if v * d <= n {
        (n - v * d) as nat
    } else {
        (v * d - n) as nat
    }
}

/// No number with a 24-bit significand lies nearer to a quotient than its
/// rounding, and where another one lies as near, the significand chosen is even.
pub proof fn law_rounded_is_nearest(n: nat, d: nat, g: nat)
    requires
        d > 0,
        representable(g),
    ensures
        distance(n, d, rounded(n, d)) <= distance(n, d, g),
        g != rounded(n, d) && distance(n, d, rounded(n, d)) == distance(n, d, g) ==> nearest_even(
            n,
            d * pow2(excess(n / d)),
        ) % 2 == 0,
{
    let (m, j) = choose|m: nat, j: nat| m < SIGNIFICAND_LIMIT && g == #[trigger] (m * pow2(j));
    let k = excess(n / d);
    let unit = pow2(k);
    let wide = d * unit;
    let v = nearest_even(n, wide);
    lemma_rounded_bounds(n, d);
    lemma_pow2_pos(j);
    assert(wide > 0) by (nonlinear_arith)
        requires
            d > 0,
            unit > 0,
            wide == d * unit,
    ;
    lemma_nearest_even_bounds(n, wide);
    assert(v * unit * d == v * wide) by (nonlinear_arith)
        requires
            wide == d * unit,
    ;
    if j >= k {
        let w = m * pow2((j - k) as nat);
        lemma_pow2_adds((j - k) as nat, k);
        assert(g == w * unit) by (nonlinear_arith)
            requires
                g == m * pow2(j),
                w == m * pow2((j - k) as nat),
                pow2(j) == pow2((j - k) as nat) * unit,
        ;
        lemma_nearest_among_multiples(n, d, unit, w);
    } else {
        let w: nat = 0x80_0000;
        lemma_nearest_among_multiples(n, d, unit, w);
        lemma_pow2_unfold(k);
        lemma_pow2_monotone(j, (k - 1) as nat);
        assert(g < w * unit) by (nonlinear_arith)
            requires
                g == m * pow2(j),
                m < 2 * w,
                2 * pow2(j) <= unit,
                pow2(j) > 0,
                w > 0,
        ;
        assert(w * unit * d == w * wide) by (nonlinear_arith)
            requires
                wide == d * unit,
        ;
        assert(g * d < w * unit * d) by (nonlinear_arith)
            requires
                g < w * unit,
                d > 0,
        ;
    }
}

proof fn lemma_nearest_among_multiples(n: nat, d: nat, unit: nat, w: nat)
    requires
        d > 0,
        unit > 0,
    ensures
        distance(n, d, nearest_even(n, d * unit) * unit) <= distance(n, d, w * unit),
        w * unit != nearest_even(n, d * unit) * unit && distance(
            n,
            d,
            nearest_even(n, d * unit) * unit,
        ) == distance(n, d, w * unit) ==> nearest_even(n, d * unit) % 2 == 0,
{
    let wide = d * unit;
    let v = nearest_even(n, wide);
    assert(wide > 0) by (nonlinear_arith)
        requires
            d > 0,
            unit > 0,
            wide == d * unit,
    ;
    lemma_nearest_even_bounds(n, wide);
    assert(v * unit * d == v * wide && w * unit * d == w * wide) by (nonlinear_arith)
        requires
            wide == d * unit,
    ;
    if w < v {
        assert(w * wide + wide <= v * wide) by (nonlinear_arith)
            requires
                w + 1 <= v,
        ;
    } else if w > v {
        assert(v * wide + wide <= w * wide) by (nonlinear_arith)
            requires
                v + 1 <= w,
        ;
    }
}

/// Rounds `n / d` to 24 significant bits, ties to even.
pub fn round_quotient(n: u128, d: u128) -> (r: u128)
    requires
        0 < d <= 0x100_0000_0000_0000_0000_0000,
        n <= 0x100_0000_0000_0000_0000_0000,
    ensures
        r == rounded(n as nat, d as nat),
{
    let q: u128 = n / d;
    let mut top: u128 = q;
    let mut unit: u128 = 1;
    proof {
        vstd::arithmetic::power2::lemma2_to64();
    }
    let ghost mut j: nat = 0;
    while top >= SIGNIFICAND_LIMIT
        invariant
            unit == pow2(j),
            excess(q as nat) == j + excess(top as nat),
            unit * top <= q,
            unit == 1 || top >= 1,
            q <= n <= 0x100_0000_0000_0000_0000_0000,
        decreases top,
    {
        proof {
            lemma_pow2_unfold(j + 1);
            let half: int = top as int / 2;
            assert(2 * unit * half <= unit * top) by (nonlinear_arith)
                requires
                    2 * half <= top,
            ;
            assert(unit * 0x100_0000 <= unit * top) by (nonlinear_arith)
                requires
                    0x100_0000 <= top,
            ;
            j = j + 1;
        }
        top = top / 2;
        unit = unit * 2;
    }
    proof {
        lemma_rounded_bounds(n as nat, d as nat);
    }
    let ghost wide_value: int = d * unit;
    proof {
        if excess(q as nat) == 0 {
            vstd::arithmetic::power2::lemma2_to64();
            assert(wide_value == d) by (nonlinear_arith)
                requires
                    unit == 1,
                    wide_value == d * unit,
            ;
        }
        assert(0 < wide_value) by (nonlinear_arith)
            requires
                0 < d,
                0 < unit,
                wide_value == d * unit,
        ;
    }
    let wide: u128 = d * unit;
    let count: u128 = n / wide;
    let rest: u128 = n % wide;
    proof {
        let v = nearest_even(n as nat, wide as nat);
        assert(v * unit <= 0x100_0000 * unit) by (nonlinear_arith)
            requires
                v <= 0x100_0000,
        ;
        assert(unit <= 0x100_0000_0000_0000_0000_0000) by (nonlinear_arith)
            requires
                unit * top <= n || unit == 1,
                unit == 1 || top >= 1,
                n <= 0x100_0000_0000_0000_0000_0000,
        ;
    }
    if 2 * rest < wide || (2 * rest == wide && count % 2 == 0) {
        count * unit
    } else {
        (count + 1) * unit
    }
}

/// Rounding between two neighbours: a quotient from `m` up to `m + 1` steps of two
/// to the power of `j`, where `m` uses all 24 bits or the step is one, goes to the
/// nearer end, and from the middle to the end whose count of steps is even.
pub proof fn law_rounded_between_neighbours(n: nat, d: nat, m: nat, j: nat)
    requires
        d > 0,
        m < 0x100_0000,
        m >= 0x80_0000 || j == 0,
        m * pow2(j) * d <= n < (m + 1) * pow2(j) * d,
    ensures
        2 * n < (2 * m + 1) * pow2(j) * d ==> rounded(n, d) == m * pow2(j),
        2 * n > (2 * m + 1) * pow2(j) * d ==> rounded(n, d) == (m + 1) * pow2(j),
        2 * n == (2 * m + 1) * pow2(j) * d && m % 2 == 0 ==> rounded(n, d) == m * pow2(j),
        2 * n == (2 * m + 1) * pow2(j) * d && m % 2 == 1 ==> rounded(n, d) == (m + 1) * pow2(j),
{
    let q = n / d;
    let k = excess(q);
    let step = pow2(j);
    lemma_pow2_pos(j);
    lemma_excess_bounds(q);
    assert(m * step <= q < (m + 1) * step) by (nonlinear_arith)
        requires
            d > 0,
            q == n / d,
            m * step * d <= n,
            n < (m + 1) * step * d,
    ;
    assert(k == j) by {
        if k < j {
            lemma_pow2_unfold(j);
            lemma_pow2_monotone(k, (j - 1) as nat);
            assert(q >= 0x80_0000 * step) by (nonlinear_arith)
                requires
                    m * step <= q,
                    m >= 0x80_0000,
            ;
        }
        if k > j {
            lemma_pow2_unfold(k);
            lemma_pow2_monotone(j, (k - 1) as nat);
            assert(q < 0x100_0000 * step) by (nonlinear_arith)
                requires
                    q < (m + 1) * step,
                    m < 0x100_0000,
            ;
        }
    }
    let wide = d * step;
    let r = (n - m * wide) as nat;
    assert(wide > 0) by (nonlinear_arith)
        requires
            d > 0,
            step > 0,
            wide == d * step,
    ;
    assert(m * step * d == m * wide && (m + 1) * step * d == m * wide + wide && (2 * m + 1) * step
        * d == 2 * (m * wide) + wide) by (nonlinear_arith)
        requires
            wide == d * step,
    ;
    vstd::arithmetic::div_mod::lemma_fundamental_div_mod_converse(
        n as int,
        wide as int,
        m as int,
        r as int,
    );
}

} // verus!
