//! Rounding to single precision: 24 significant bits, ties to even.
//!
//! Numbers are held in units of 2^-40. All values that occur are zero or at
//! least 2^-17, so that their single-precision neighbours are multiples of the
//! unit.
use vstd::prelude::*;

verus! {

/// The number one, in units of 2^-40.
pub const ONE: u128 = 0x100_0000_0000;

/// The quotient rounded to the nearest integer, a tie to the even one.
pub open spec fn half_even(n: nat, d: nat) -> nat {
    let q = n / d;
    let r = n % d;
    if 2 * r > d || (2 * r == d && q % 2 == 1) {
        q + 1
    } else {
        q
    }
}

/// The distance between neighbouring single-precision numbers at `n / d`: the
/// least doubling of `step` for which 24 bits suffice.
pub open spec fn grain(n: nat, d: nat, step: nat) -> nat
    decreases n * ONE - step,
{
    if d > 0 && step > 0 && n * ONE >= 0x100_0000 * (step * d) {
        proof {
            assert(step * d >= step) by (nonlinear_arith)
                requires
                    d > 0,
                    step > 0,
            ;
        }
        grain(n, d, 2 * step)
    } else {
        step
    }
}

/// The single-precision number nearest to `n / d`.
pub open spec fn nearest_single(n: nat, d: nat) -> nat {
    let step = grain(n, d, 1);
    step * half_even(n * ONE as nat, d * step)
}

proof fn lemma_half_even(n: nat, d: nat)
    requires
        d > 0,
    ensures
        2 * (half_even(n, d) * d) <= 2 * n + d,
        2 * (half_even(n, d) * d) + d >= 2 * n,
        half_even(n, d) * d <= 2 * n,
{
    let q = n / d;
    let r = n % d;
    assert(n == q * d + r && r < d) by (nonlinear_arith)
        requires
            d > 0,
            q == n / d,
            r == n % d,
    ;
    assert((q + 1) * d == q * d + d) by (nonlinear_arith);
    if half_even(n, d) == 0 {
        assert(half_even(n, d) * d == 0);
    }
    assert(q * d >= 0) by (nonlinear_arith)
        requires
            q >= 0,
            d > 0,
    ;
}

proof fn lemma_half_even_monotone(a: nat, b: nat, d: nat)
    requires
        d > 0,
        a <= b,
    ensures
        half_even(a, d) <= half_even(b, d),
{
    let p = a / d;
    let q = b / d;
    let r = a % d;
    let s = b % d;
    assert(a == p * d + r && r < d && b == q * d + s && s < d) by (nonlinear_arith)
        requires
            d > 0,
            p == a / d,
            q == b / d,
            r == a % d,
            s == b % d,
    ;
    if p > q {
        assert(p * d >= q * d + d) by (nonlinear_arith)
            requires
                p >= q + 1,
                d > 0,
        ;
    }
    if p == q {
        assert(p * d == q * d);
    }
}

/// The grain is the least doubling that suffices.
pub proof fn lemma_grain(n: nat, d: nat, step: nat)
    requires
        d > 0,
        step > 0,
    ensures
        grain(n, d, step) >= step,
        n * ONE < 0x100_0000 * (grain(n, d, step) * d),
        grain(n, d, step) > step ==> 2 * (n * ONE) >= 0x100_0000 * (grain(n, d, step) * d),
    decreases n * ONE - step,
{
    if n * ONE >= 0x100_0000 * (step * d) {
        assert(step * d >= step) by (nonlinear_arith)
            requires
                d > 0,
                step > 0,
        ;
        lemma_grain(n, d, 2 * step);
        assert((2 * step) * d == 2 * (step * d)) by (nonlinear_arith);
    }
}

proof fn lemma_grain_monotone(a: nat, b: nat, d: nat, step: nat)
    requires
        d > 0,
        step > 0,
        a <= b,
    ensures
        grain(a, d, step) == grain(b, d, step) || 2 * grain(a, d, step) <= grain(b, d, step),
    decreases b * ONE - step,
{
    assert(step * d >= step) by (nonlinear_arith)
        requires
            d > 0,
            step > 0,
    ;
    if b * ONE >= 0x100_0000 * (step * d) {
        if a * ONE >= 0x100_0000 * (step * d) {
            lemma_grain_monotone(a, b, d, 2 * step);
        } else {
            lemma_grain(b, d, 2 * step);
        }
    }
}

/// How far a rounded number can be off.
pub proof fn lemma_nearest_single(n: nat, d: nat)
    requires
        d > 0,
    ensures
        nearest_single(n, d) * d <= 2 * (n * ONE),
        2 * (nearest_single(n, d) * d) <= 2 * (n * ONE) + grain(n, d, 1) * d,
        2 * (nearest_single(n, d) * d) + grain(n, d, 1) * d >= 2 * (n * ONE),
{
    let step = grain(n, d, 1);
    lemma_grain(n, d, 1);
    assert(d * step > 0) by (nonlinear_arith)
        requires
            d > 0,
            step > 0,
    ;
    let u = n * ONE as nat;
    lemma_half_even(u, d * step);
    let h = half_even(u, d * step);
    assert((step * h) * d == h * (d * step)) by (nonlinear_arith);
    assert(d * step == step * d) by (nonlinear_arith);
}

/// Rounding keeps the order.
pub proof fn lemma_nearest_single_monotone(a: nat, b: nat, d: nat)
    requires
        d > 0,
        a <= b,
    ensures
        nearest_single(a, d) <= nearest_single(b, d),
{
    let s = grain(a, d, 1);
    let t = grain(b, d, 1);
    lemma_grain(a, d, 1);
    lemma_grain(b, d, 1);
    lemma_grain_monotone(a, b, d, 1);
    let u = a * ONE as nat;
    let v = b * ONE as nat;
    assert(d * s > 0 && d * t > 0) by (nonlinear_arith)
        requires
            d > 0,
            s > 0,
            t > 0,
    ;
    let g = half_even(u, d * s);
    let h = half_even(v, d * t);
    if s == t {
        lemma_half_even_monotone(u, v, d * s);
        assert(s * g <= s * h) by (nonlinear_arith)
            requires
                g <= h,
        ;
    } else {
        // The smaller number needs at most 2^24 of its grains, the larger
        // one at least 2^23 of its own, which are at least twice as large.
        lemma_half_even(u, d * s);
        lemma_half_even(v, d * t);
        assert(d * s == s * d && d * t == t * d) by (nonlinear_arith);
        assert(g <= 0x100_0000) by (nonlinear_arith)
            requires
                2 * (g * (d * s)) <= 2 * u + d * s,
                u < 0x100_0000 * (d * s),
                d * s > 0,
        ;
        assert(h >= 0x80_0000) by (nonlinear_arith)
            requires
                2 * (h * (d * t)) + d * t >= 2 * v,
                2 * v >= 0x100_0000 * (d * t),
                d * t > 0,
        ;
        assert(s * g <= t * h) by (nonlinear_arith)
            requires
                g <= 0x100_0000,
                h >= 0x80_0000,
                2 * s <= t,
        ;
    }
}

fn half_even_of(n: u128, d: u128) -> (r: u128)
    requires
        0 < d <= 0x8000_0000_0000_0000_0000_0000_0000,
        n <= 0x8000_0000_0000_0000_0000_0000_0000,
    ensures
        r == half_even(n as nat, d as nat),
{
    let q = n / d;
    let r = n % d;
    if 2 * r > d || (2 * r == d && q % 2 == 1) {
        assert(q <= n) by (nonlinear_arith)
            requires
                q == n / d,
                d > 0,
        ;
        q + 1
    } else {
        q
    }
}

/// The single-precision number nearest to `n / d`.
pub fn to_single(n: u128, d: u128) -> (r: u128)
    requires
        n <= 0x1000_0000_0000_0000,
        0 < d <= 0x1000_0000_0000_0000,
    ensures
        r == nearest_single(n as nat, d as nat),
{
    let units: u128 = n * ONE;
    let mut step: u128 = 1;
    let ghost first = grain(n as nat, d as nat, 1);
    let mut span: u128 = d;
    while units >= 0x100_0000 * span
        invariant
            n <= 0x1000_0000_0000_0000,
            0 < d <= 0x1000_0000_0000_0000,
            units == n * ONE,
            step > 0,
            span == step * d,
            span <= 0x2000_0000_0000_0000_0000_0000,
            first == grain(n as nat, d as nat, step as nat),
        decreases units + 1 - span,
    {
        proof {
            assert(step as nat * d as nat == step * d);
            assert((2 * step) * d == 2 * (step * d)) by (nonlinear_arith);
            assert(step <= step * d) by (nonlinear_arith)
                requires
                    d > 0,
            ;
        }
        step = 2 * step;
        span = 2 * span;
    }
    proof {
        assert(step <= step * d) by (nonlinear_arith)
            requires
                d > 0,
        ;
        assert(d * step == step * d) by (nonlinear_arith);
        lemma_grain(n as nat, d as nat, 1);
        lemma_nearest_single(n as nat, d as nat);
        let r = nearest_single(n as nat, d as nat);
        assert(r <= r * d) by (nonlinear_arith)
            requires
                d > 0,
                r >= 0,
        ;
    }
    let h = half_even_of(units, span);
    step * h
}


/// The roundings on the way from the green and blue thirds of the color wheel
/// to their hue bytes.
pub proof fn lemma_thirds()
    ensures
        nearest_single((2 * ONE) as nat, ONE as nat) == 2 * ONE,
        nearest_single((4 * ONE) as nat, ONE as nat) == 4 * ONE,
        nearest_single((120 * ONE) as nat, ONE as nat) == 120 * ONE,
        nearest_single((240 * ONE) as nat, ONE as nat) == 240 * ONE,
        nearest_single((120 * ONE) as nat, (360 * ONE) as nat) == 366503886848,
        nearest_single((240 * ONE) as nat, (360 * ONE) as nat) == 733007773696,
{
    reveal_with_fuel(grain, 12);
    assert(grain(2199023255552, 1099511627776, 512) == 262144);
    assert(grain(2199023255552, 1099511627776, 1) == 262144);
    assert(half_even(2199023255552nat * ONE as nat, 1099511627776nat * 262144nat) == 8388608);
    assert(nearest_single(2199023255552, 1099511627776) == 2199023255552);
    assert(grain(4398046511104, 1099511627776, 1024) == 524288);
    assert(grain(4398046511104, 1099511627776, 2) == 524288);
    assert(grain(4398046511104, 1099511627776, 1) == 524288);
    assert(half_even(4398046511104nat * ONE as nat, 1099511627776nat * 524288nat) == 8388608);
    assert(nearest_single(4398046511104, 1099511627776) == 4398046511104);
    assert(grain(131941395333120, 1099511627776, 16384) == 8388608);
    assert(grain(131941395333120, 1099511627776, 32) == 8388608);
    assert(grain(131941395333120, 1099511627776, 1) == 8388608);
    assert(half_even(131941395333120nat * ONE as nat, 1099511627776nat * 8388608nat) == 15728640);
    assert(nearest_single(131941395333120, 1099511627776) == 131941395333120);
    assert(grain(263882790666240, 1099511627776, 32768) == 16777216);
    assert(grain(263882790666240, 1099511627776, 64) == 16777216);
    assert(grain(263882790666240, 1099511627776, 1) == 16777216);
    assert(half_even(263882790666240nat * ONE as nat, 1099511627776nat * 16777216nat) == 15728640);
    assert(nearest_single(263882790666240, 1099511627776) == 263882790666240);
    assert(grain(131941395333120, 395824185999360, 64) == 32768);
    assert(grain(131941395333120, 395824185999360, 1) == 32768);
    assert(half_even(131941395333120nat * ONE as nat, 395824185999360nat * 32768nat) == 11184811);
    assert(nearest_single(131941395333120, 395824185999360) == 366503886848);
    assert(grain(263882790666240, 395824185999360, 128) == 65536);
    assert(grain(263882790666240, 395824185999360, 1) == 65536);
    assert(half_even(263882790666240nat * ONE as nat, 395824185999360nat * 65536nat) == 11184811);
    assert(nearest_single(263882790666240, 395824185999360) == 733007773696);
}

/// A rounded number is off by no more than a part in 2^24 of the number, or by
/// half a unit.
pub proof fn lemma_close(n: nat, d: nat)
    requires
        d > 0,
    ensures
        0x100_0000 * (nearest_single(n, d) * d) <= 0x100_0000 * (n * ONE) + n * ONE + 0x80_0000 * d,
        0x100_0000 * (nearest_single(n, d) * d) + n * ONE + 0x80_0000 * d >= 0x100_0000 * (n * ONE),
{
    lemma_nearest_single(n, d);
    lemma_grain(n, d, 1);
    assert(grain(n, d, 1) == 1 ==> grain(n, d, 1) * d == d);
}

/// [`lemma_close`] where a whole number of units is rounded.
pub proof fn lemma_close_whole(n: nat)
    ensures
        0x100_0000 * nearest_single(n, ONE as nat) <= 0x100_0000 * n + n + 0x80_0000,
        0x100_0000 * nearest_single(n, ONE as nat) + n + 0x80_0000 >= 0x100_0000 * n,
{
    lemma_close(n, ONE as nat);
}

} // verus!
