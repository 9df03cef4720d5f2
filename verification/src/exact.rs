//! Telling an exact sum from a rounded one.
//!
//! A decimal is a pair of a signed mantissa and a scale: it stands for
//! `mantissa / 10^scale`. To speak of such values without fractions, every
//! value is measured in *units* of `10^-28`, the finest step that a scale can
//! express. The arithmetic itself is left to the decimal library; what is
//! decided here, in integers, is whether three decimals satisfy `x + y == z`
//! exactly.

use vstd::arithmetic::power::*;
use vstd::prelude::*;

verus! {

/// The largest scale a decimal can carry.
pub const MAX_SCALE: u32 = 28;

/// The largest magnitude of a mantissa: `2^96 - 1`.
pub const MAX_MANTISSA: i128 = 0xFFFF_FFFF_FFFF_FFFF_FFFF_FFFF;

/// Twice `MAX_MANTISSA`: no mantissa of an exact sum, brought to the common
/// scale of its terms, is larger.
pub const SUM_LIMIT: i128 = 0x1_FFFF_FFFF_FFFF_FFFF_FFFF_FFFE;

/// `10^n`.
pub open spec fn pow10(n: nat) -> int {
    pow(10, n)
}

/// Whether `mantissa` and `scale` are within the limits of a decimal.
pub open spec fn representable(mantissa: int, scale: nat) -> bool {
    -MAX_MANTISSA <= mantissa <= MAX_MANTISSA && scale <= MAX_SCALE
}

/// The value of `mantissa / 10^scale`, counted in units of `10^-28`.
pub open spec fn units(mantissa: int, scale: nat) -> int {
    mantissa * pow10((MAX_SCALE - scale) as nat)
}

/// A decimal is reduced when its scale cannot be lowered without changing
/// its value: the scale is zero or the mantissa does not end in a zero digit.
pub open spec fn is_reduced(mantissa: int, scale: nat) -> bool {
    scale == 0 || mantissa % 10 != 0
}

proof fn lemma_pow10_positive(n: nat)
    ensures
        pow10(n) > 0,
{
    lemma_pow_positive(10, n);
}

proof fn lemma_pow10_step(n: nat)
    ensures
        pow10(n + 1) == 10 * pow10(n),
{
    reveal(pow);
}

proof fn lemma_pow10_adds(a: nat, b: nat)
    ensures
        pow10(a + b) == pow10(a) * pow10(b),
{
    lemma_pow_adds(10, a, b);
}

/// A value is unchanged when its mantissa is first brought to a larger scale.
proof fn lemma_units_at(mantissa: int, scale: nat, top: nat)
    requires
        scale <= top <= MAX_SCALE,
    ensures
        units(mantissa, scale) == (mantissa * pow10((top - scale) as nat)) * pow10(
            (MAX_SCALE - top) as nat,
        ),
{
    let up = pow10((top - scale) as nat);
    let rest = pow10((MAX_SCALE - top) as nat);
    lemma_pow10_adds((top - scale) as nat, (MAX_SCALE - top) as nat);
    assert(mantissa * (up * rest) == (mantissa * up) * rest) by (nonlinear_arith);
}

/// A mantissa brought up by at least one digit ends in zero.
proof fn lemma_scaled_ends_in_zero(mantissa: int, digits: nat)
    requires
        digits >= 1,
    ensures
        (mantissa * pow10(digits)) % 10 == 0,
{
    lemma_pow10_step((digits - 1) as nat);
    let rest = pow10((digits - 1) as nat);
    assert(mantissa * (10 * rest) == 10 * (mantissa * rest)) by (nonlinear_arith);
}

proof fn lemma_cancel(a: int, b: int, p: int)
    requires
        p > 0,
        a * p == b * p,
    ensures
        a == b,
{
    assert(a == b) by (nonlinear_arith)
        requires
            p > 0,
            a * p == b * p,
    ;
}

/// Where three reduced decimals satisfy `x + y == z`, the scale of `z` is at
/// most the larger scale of `x` and `y`, and at that scale no mantissa
/// exceeds `SUM_LIMIT`.
proof fn lemma_exact_sum_is_bounded(mx: int, sx: nat, my: int, sy: nat, mz: int, sz: nat)
    requires
        representable(mx, sx),
        representable(my, sy),
        representable(mz, sz),
        is_reduced(mx, sx),
        is_reduced(my, sy),
        is_reduced(mz, sz),
        units(mx, sx) + units(my, sy) == units(mz, sz),
    ensures
        ({
            let top = if sx >= sy { sx } else { sy };
            &&& sz <= top
            &&& -SUM_LIMIT <= mx * pow10((top - sx) as nat) <= SUM_LIMIT
            &&& -SUM_LIMIT <= my * pow10((top - sy) as nat) <= SUM_LIMIT
            &&& -SUM_LIMIT <= mz * pow10((top - sz) as nat) <= SUM_LIMIT
        }),
{
    let top = if sx >= sy { sx } else { sy };
    let x = mx * pow10((top - sx) as nat);
    let y = my * pow10((top - sy) as nat);
    let rest = pow10((MAX_SCALE - top) as nat);
    lemma_units_at(mx, sx, top);
    lemma_units_at(my, sy, top);
    lemma_pow10_positive((MAX_SCALE - top) as nat);
    assert(units(mx, sx) + units(my, sy) == (x + y) * rest) by (nonlinear_arith)
        requires
            units(mx, sx) == x * rest,
            units(my, sy) == y * rest,
    ;
    if sz > top {
        // z has more digits than the sum can need: its mantissa would end in zero.
        let extra = pow10((sz - top) as nat);
        let low = pow10((MAX_SCALE - sz) as nat);
        lemma_pow10_adds((sz - top) as nat, (MAX_SCALE - sz) as nat);
        lemma_pow10_positive((MAX_SCALE - sz) as nat);
        assert((x + y) * (extra * low) == ((x + y) * extra) * low) by (nonlinear_arith);
        lemma_cancel((x + y) * extra, mz, low);
        lemma_scaled_ends_in_zero(x + y, (sz - top) as nat);
        assert(false);
    }
    let z = mz * pow10((top - sz) as nat);
    lemma_units_at(mz, sz, top);
    lemma_cancel(x + y, z, rest);
    lemma_pow0(10);
    // Now x + y == z, all three at the scale `top`. Where the scales of x and
    // y are equal, x and y are the mantissas themselves. Where they differ,
    // the one of smaller scale ends in zero and the other does not: so z
    // does not either, its scale is `top`, and it is its mantissa itself.
    if sx == sy {
        assert(x == mx);
        assert(y == my);
    } else if sx < sy {
        assert(y == my);
        lemma_scaled_ends_in_zero(mx, (top - sx) as nat);
        if sz < top {
            lemma_scaled_ends_in_zero(mz, (top - sz) as nat);
            assert(false);
        }
        assert(z == mz) by (nonlinear_arith)
            requires
                z == mz * pow10((top - sz) as nat),
                pow10((top - sz) as nat) == 1,
        ;
    } else {
        assert(x == mx);
        lemma_scaled_ends_in_zero(my, (top - sy) as nat);
        if sz < top {
            lemma_scaled_ends_in_zero(mz, (top - sz) as nat);
            assert(false);
        }
        assert(z == mz) by (nonlinear_arith)
            requires
                z == mz * pow10((top - sz) as nat),
                pow10((top - sz) as nat) == 1,
        ;
    }
}

/// Lowers the scale of a decimal as far as its value allows.
pub fn reduce(mantissa: i128, scale: u32) -> (r: (i128, u32))
    requires
        representable(mantissa as int, scale as nat),
    ensures
        representable(r.0 as int, r.1 as nat),
        is_reduced(r.0 as int, r.1 as nat),
        units(r.0 as int, r.1 as nat) == units(mantissa as int, scale as nat),
        r.1 <= scale,
{
    let mut m: i128 = mantissa;
    let mut s: u32 = scale;
    while s > 0 && m % 10 == 0
        invariant
            representable(m as int, s as nat),
            units(m as int, s as nat) == units(mantissa as int, scale as nat),
            s <= scale,
        decreases s,
    {
        let lower: i128 = m / 10;
        proof {
            assert(m == 10 * lower);
            lemma_pow10_step((MAX_SCALE - s) as nat);
            let p = pow10((MAX_SCALE - s) as nat);
            assert((MAX_SCALE - (s - 1)) as nat == ((MAX_SCALE - s) as nat) + 1);
            assert(lower * (10 * p) == (10 * lower) * p) by (nonlinear_arith);
        }
        m = lower;
        s = s - 1;
    }
    (m, s)
}

/// Multiplies `mantissa` by `10^digits`, as long as the product stays within
/// `SUM_LIMIT`.
pub fn scale_up(mantissa: i128, digits: u32) -> (r: Option<i128>)
    requires
        -SUM_LIMIT <= mantissa <= SUM_LIMIT,
        digits <= MAX_SCALE,
    ensures
        match r {
            Some(v) => v == mantissa * pow10(digits as nat) && -SUM_LIMIT <= v <= SUM_LIMIT,
            None => mantissa * pow10(digits as nat) < -SUM_LIMIT || SUM_LIMIT < mantissa * pow10(
                digits as nat,
            ),
        },
{
    let mut v: i128 = mantissa;
    let mut done: u32 = 0;
    proof {
        lemma_pow0(10);
    }
    while done < digits
        invariant
            done <= digits <= MAX_SCALE,
            v == mantissa * pow10(done as nat),
            -SUM_LIMIT <= v <= SUM_LIMIT,
        decreases digits - done,
    {
        if v > SUM_LIMIT / 10 || v < -(SUM_LIMIT / 10) {
            proof {
                let left = pow10((digits - done) as nat);
                lemma_pow10_adds(done as nat, (digits - done) as nat);
                lemma_pow10_step((digits - done - 1) as nat);
                lemma_pow10_positive((digits - done - 1) as nat);
                assert(left >= 10);
                assert(mantissa * (pow10(done as nat) * left) == v * left) by (nonlinear_arith)
                    requires
                        v == mantissa * pow10(done as nat),
                ;
                if v > 0 {
                    assert(v * left >= v * 10) by (nonlinear_arith)
                        requires
                            v > 0,
                            left >= 10,
                    ;
                } else {
                    assert(v * left <= v * 10) by (nonlinear_arith)
                        requires
                            v < 0,
                            left >= 10,
                    ;
                }
            }
            return None;
        }
        proof {
            lemma_pow10_step(done as nat);
            let p = pow10(done as nat);
            assert(mantissa * (10 * p) == (mantissa * p) * 10) by (nonlinear_arith);
        }
        v = v * 10;
        done = done + 1;
    }
    Some(v)
}

/// Decides whether `x + y == z` holds exactly, each decimal given by its
/// mantissa and scale.
pub fn adds_up(x: (i128, u32), y: (i128, u32), z: (i128, u32)) -> (b: bool)
    requires
        representable(x.0 as int, x.1 as nat),
        representable(y.0 as int, y.1 as nat),
        representable(z.0 as int, z.1 as nat),
    ensures
        b == (units(x.0 as int, x.1 as nat) + units(y.0 as int, y.1 as nat) == units(
            z.0 as int,
            z.1 as nat,
        )),
{
    let (mx, sx) = reduce(x.0, x.1);
    let (my, sy) = reduce(y.0, y.1);
    let (mz, sz) = reduce(z.0, z.1);
    let top: u32 = if sx >= sy { sx } else { sy };
    let ghost exact = units(mx as int, sx as nat) + units(my as int, sy as nat) == units(
        mz as int,
        sz as nat,
    );
    proof {
        if exact {
            lemma_exact_sum_is_bounded(
                mx as int,
                sx as nat,
                my as int,
                sy as nat,
                mz as int,
                sz as nat,
            );
        }
    }
    if sz > top {
        return false;
    }
    let ax = scale_up(mx, top - sx);
    let ay = scale_up(my, top - sy);
    let az = scale_up(mz, top - sz);
    match (ax, ay, az) {
        (Some(a), Some(b), Some(c)) => {
            proof {
                let rest = pow10((MAX_SCALE - top) as nat);
                lemma_units_at(mx as int, sx as nat, top as nat);
                lemma_units_at(my as int, sy as nat, top as nat);
                lemma_units_at(mz as int, sz as nat, top as nat);
                lemma_pow10_positive((MAX_SCALE - top) as nat);
                assert(a * rest + b * rest == (a + b) * rest) by (nonlinear_arith);
                if exact {
                    lemma_cancel(a + b, c as int, rest);
                }
            }
            a + b == c
        },
        _ => false,
    }
}

} // verus!
