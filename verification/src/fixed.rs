//! Signed 16.16 fixed-point scalars.
//!
//! Every quantity that crosses the instruction stream — coordinates,
//! radii, half extents, rotation angles, signed distances — is an `i64`
//! interpreted as `value / FX_ONE`.  All operations saturate into the
//! band `[-FX_LIM, FX_LIM]`, so the evaluator stays total on arbitrary
//! (even malformed) streams.  `FX_LIM` is a multiple of `FX_TAU`, which
//! lets angle reduction shift any in-band value into nonnegative range
//! without changing its phase.

use vstd::prelude::*;

verus! {

/// One spatial unit: the fixed-point scaling factor, 2^16.
pub const FX_ONE: i64 = 65536;

/// The full turn, `2 * pi`, rounded to fixed point: `floor(2 * pi * 65536)`.
pub const FX_TAU: i64 = 411774;

/// Half a turn, `pi` in fixed point.
pub const FX_PI: i64 = 205887;

/// A quarter turn, `pi / 2` in fixed point.
pub const FX_HALF_PI: i64 = 102944;

/// Saturation bound for every fixed-point value: `FX_TAU * 2^25`,
/// about 2.1e8 spatial units.  Chosen as a multiple of the full turn so
/// that adding `FX_LIM` to an in-band angle does not change its phase.
pub const FX_LIM: i64 = FX_TAU * 33554432;

/// Whether `v` lies in the saturation band.
pub open spec fn fx_in_range(v: int) -> bool {
    -FX_LIM <= v <= FX_LIM
}

/// `v` pulled into the saturation band.
pub open spec fn fx_clip(v: int) -> int {
    if v > FX_LIM {
        FX_LIM as int
    } else if v < -FX_LIM {
        -FX_LIM as int
    } else {
        v
    }
}

/// Saturate an arbitrary word into the fixed-point band.
pub fn fx_clamp(v: i64) -> (r: i64)
    ensures
        r == fx_clip(v as int),
{
    if v > FX_LIM {
        FX_LIM
    } else if v < -FX_LIM {
        -FX_LIM
    } else {
        v
    }
}

/// Saturating fixed-point sum.
pub fn fx_add(a: i64, b: i64) -> (r: i64)
    requires
        fx_in_range(a as int),
        fx_in_range(b as int),
    ensures
        r == fx_clip(a + b),
{
    fx_clamp(a + b)
}

/// Saturating fixed-point difference.
pub fn fx_sub(a: i64, b: i64) -> (r: i64)
    requires
        fx_in_range(a as int),
        fx_in_range(b as int),
    ensures
        r == fx_clip(a - b),
{
    fx_clamp(a - b)
}

/// The smaller of two scalars.
pub fn fx_min(a: i64, b: i64) -> (r: i64)
    ensures
        r == if a <= b { a as int } else { b as int },
{
    if a <= b {
        a
    } else {
        b
    }
}

/// The larger of two scalars.
pub fn fx_max(a: i64, b: i64) -> (r: i64)
    ensures
        r == if a >= b { a as int } else { b as int },
{
    if a >= b {
        a
    } else {
        b
    }
}

/// Absolute value (exact on the band).
pub fn fx_abs(a: i64) -> (r: i64)
    requires
        fx_in_range(a as int),
    ensures
        r == if a >= 0 { a as int } else { -a as int },
{
    if a >= 0 {
        a
    } else {
        -a
    }
}

/// Magnitude of a mathematical integer.
pub open spec fn fx_mag(a: int) -> int {
    if a >= 0 {
        a
    } else {
        -a
    }
}

/// The value of a saturating fixed-point product: the magnitudes are
/// multiplied, scaled down by `FX_ONE` rounding toward zero, then the
/// sign is restored and the result clipped into the band.
pub open spec fn fx_mul_val(a: int, b: int) -> int {
    let p = (fx_mag(a) * fx_mag(b)) / (FX_ONE as int);
    if (a < 0) != (b < 0) {
        fx_clip(-p)
    } else {
        fx_clip(p)
    }
}

/// Saturating fixed-point product, rounded toward zero.
pub fn fx_mul(a: i64, b: i64) -> (r: i64)
    requires
        fx_in_range(a as int),
        fx_in_range(b as int),
    ensures
        r == fx_mul_val(a as int, b as int),
        fx_in_range(r as int),
{
    let ma: u64 = if a >= 0 { a as u64 } else { (-a) as u64 };
    let mb: u64 = if b >= 0 { b as u64 } else { (-b) as u64 };
    assert((ma as int) * (mb as int) <= (FX_LIM as int) * (FX_LIM as int)) by (nonlinear_arith)
        requires
            0 <= ma <= FX_LIM,
            0 <= mb <= FX_LIM,
    ;
    let p: u128 = (ma as u128) * (mb as u128) / (FX_ONE as u128);
    let m: i64 = if p > FX_LIM as u128 {
        FX_LIM
    } else {
        p as i64
    };
    if (a < 0) != (b < 0) {
        -m
    } else {
        m
    }
}

/// The value of a saturating fixed-point quotient (`a / b` in real
/// terms), rounded toward zero and clipped into the band.
pub open spec fn fx_div_val(a: int, b: int) -> int {
    let q = (fx_mag(a) * (FX_ONE as int)) / fx_mag(b);
    if (a < 0) != (b < 0) {
        fx_clip(-q)
    } else {
        fx_clip(q)
    }
}

/// Saturating fixed-point quotient, rounded toward zero.
pub fn fx_div(a: i64, b: i64) -> (r: i64)
    requires
        fx_in_range(a as int),
        fx_in_range(b as int),
        b != 0,
    ensures
        r == fx_div_val(a as int, b as int),
        fx_in_range(r as int),
{
    let ma: u64 = if a >= 0 { a as u64 } else { (-a) as u64 };
    let mb: u64 = if b >= 0 { b as u64 } else { (-b) as u64 };
    let q: u128 = (ma as u128) * (FX_ONE as u128) / (mb as u128);
    let m: i64 = if q > FX_LIM as u128 {
        FX_LIM
    } else {
        q as i64
    };
    if (a < 0) != (b < 0) {
        -m
    } else {
        m
    }
}

/// The integer square root, `floor(sqrt(n))`, defined by primitive
/// recursion so that it is a total spec-level function.
pub open spec fn sqrt_floor(n: nat) -> nat
    decreases n,
{
    if n == 0 {
        0
    } else {
        let p = sqrt_floor((n - 1) as nat);
        if (p + 1) * (p + 1) <= n {
            p + 1
        } else {
            p
        }
    }
}

/// `sqrt_floor` is exactly the rounded-down square root.
pub proof fn lemma_sqrt_floor_bounds(n: nat)
    ensures
        sqrt_floor(n) * sqrt_floor(n) <= n,
        n < (sqrt_floor(n) + 1) * (sqrt_floor(n) + 1),
    decreases n,
{
    if n == 0 {
        assert(sqrt_floor(0) == 0);
        assert((sqrt_floor(n) + 1) * (sqrt_floor(n) + 1) == 1) by (nonlinear_arith)
            requires
                sqrt_floor(n) == 0,
        ;
    } else {
        lemma_sqrt_floor_bounds((n - 1) as nat);
        let p = sqrt_floor((n - 1) as nat);
        if (p + 1) * (p + 1) <= n {
            assert(sqrt_floor(n) == p + 1);
            assert(n < (p + 2) * (p + 2)) by (nonlinear_arith)
                requires
                    n <= (p + 1) * (p + 1) + 1,
                    (p + 1) * (p + 1) <= n,
                    p >= 0,
            ;
            assert((sqrt_floor(n) + 1) * (sqrt_floor(n) + 1) == (p + 2) * (p + 2))
                by (nonlinear_arith)
                requires
                    sqrt_floor(n) == p + 1,
            ;
            assert(n < (sqrt_floor(n) + 1) * (sqrt_floor(n) + 1));
        } else {
            assert(sqrt_floor(n) == p);
            assert(n < (sqrt_floor(n) + 1) * (sqrt_floor(n) + 1));
        }
    }
}

/// No other value satisfies the square-root bracket.
pub proof fn lemma_sqrt_floor_unique(n: nat, r: nat)
    requires
        r * r <= n,
        n < (r + 1) * (r + 1),
    ensures
        r == sqrt_floor(n),
{
    let s = sqrt_floor(n);
    lemma_sqrt_floor_bounds(n);
    assert(r < s + 1 && s < r + 1) by (nonlinear_arith)
        requires
            r * r <= n,
            n < (r + 1) * (r + 1),
            s * s <= n,
            n < (s + 1) * (s + 1),
            r >= 0,
            s >= 0,
    ;
}

/// Rounded-down square root of a machine word, by bisection.
fn isqrt(n: u128) -> (r: u64)
    requires
        n <= 0xffff_ffff_ffff_ffff_ffff_ffff,
    ensures
        (r as int) * (r as int) <= n,
        n < (r + 1) * (r + 1),
        r == sqrt_floor(n as nat),
{
    let mut lo: u64 = 0;
    let mut hi: u64 = 0x1_0000_0000_0000;
    assert(n < (hi as int + 1) * (hi as int + 1)) by (nonlinear_arith)
        requires
            n <= 0xffff_ffff_ffff_ffff_ffff_ffff,
            hi == 0x1_0000_0000_0000,
    ;
    while lo < hi
        invariant
            lo <= hi <= 0x1_0000_0000_0000,
            (lo as int) * (lo as int) <= n,
            n < (hi as int + 1) * (hi as int + 1),
        decreases hi - lo,
    {
        let mid: u64 = lo + (hi - lo + 1) / 2;
        assert(lo < mid <= hi);
        assert((mid as int) * (mid as int) <= 0x1_0000_0000_0000 * 0x1_0000_0000_0000)
            by (nonlinear_arith)
            requires
                0 <= mid <= 0x1_0000_0000_0000,
        ;
        if (mid as u128) * (mid as u128) <= n {
            lo = mid;
        } else {
            hi = mid - 1;
        }
    }
    proof {
        lemma_sqrt_floor_unique(n as nat, lo as nat);
    }
    lo
}

/// The fixed-point Euclidean length of a vector: in 16.16 fixed point
/// the length is just the integer square root of the sum of squared
/// words, clipped into the band.
pub open spec fn fx_len_val(x: int, y: int, z: int) -> int {
    fx_clip(sqrt_floor((x * x + y * y + z * z) as nat) as int)
}

/// Saturating fixed-point vector length.
pub fn fx_len(x: i64, y: i64, z: i64) -> (r: i64)
    requires
        fx_in_range(x as int),
        fx_in_range(y as int),
        fx_in_range(z as int),
    ensures
        r == fx_len_val(x as int, y as int, z as int),
        0 <= r <= FX_LIM,
{
    let mx: u64 = if x >= 0 { x as u64 } else { (-x) as u64 };
    let my: u64 = if y >= 0 { y as u64 } else { (-y) as u64 };
    let mz: u64 = if z >= 0 { z as u64 } else { (-z) as u64 };
    assert((mx as int) * (mx as int) == (x as int) * (x as int)
        && (my as int) * (my as int) == (y as int) * (y as int)
        && (mz as int) * (mz as int) == (z as int) * (z as int)) by (nonlinear_arith)
        requires
            mx == fx_mag(x as int),
            my == fx_mag(y as int),
            mz == fx_mag(z as int),
    ;
    assert((mx as int) * (mx as int) <= (FX_LIM as int) * (FX_LIM as int)
        && (my as int) * (my as int) <= (FX_LIM as int) * (FX_LIM as int)
        && (mz as int) * (mz as int) <= (FX_LIM as int) * (FX_LIM as int)) by (nonlinear_arith)
        requires
            0 <= mx <= FX_LIM,
            0 <= my <= FX_LIM,
            0 <= mz <= FX_LIM,
    ;
    let s: u128 = (mx as u128) * (mx as u128) + (my as u128) * (my as u128) + (mz as u128) * (
    mz as u128);
    let r64: u64 = isqrt(s);
    if r64 > FX_LIM as u64 {
        FX_LIM
    } else {
        r64 as i64
    }
}

/// The phase of an angle: the angle pulled into the band and reduced
/// into `[0, FX_TAU)`.  Shifting by `FX_LIM` (a multiple of `FX_TAU`)
/// makes the dividend nonnegative without changing the phase.
pub open spec fn fx_phase(a: int) -> int {
    (fx_clip(a) + FX_LIM) % (FX_TAU as int)
}

/// The half-turn sine wave of the convention: the quadratic
/// `4 * u * (pi - u) / pi^2`, scaled to fixed point, exact for
/// `u` in `[0, FX_PI]` at both ends and at the crest.
pub open spec fn fx_sin_half(u: int) -> int {
    (4 * FX_ONE * u * (FX_PI - u)) / (FX_PI * FX_PI)
}

/// Sine of a phase in `[0, FX_TAU)`: the quadratic half wave,
/// mirrored and negated on the second half turn.
pub open spec fn fx_sin_at(u: int) -> int {
    if u <= FX_PI {
        fx_sin_half(u)
    } else {
        -fx_sin_half(u - FX_PI)
    }
}

/// The sine of the convention, defined on every fixed-point angle.
pub open spec fn fx_sin_val(a: int) -> int {
    fx_sin_at(fx_phase(a))
}

/// The cosine of the convention: the sine a quarter turn ahead.
pub open spec fn fx_cos_val(a: int) -> int {
    fx_sin_at((fx_phase(a) + FX_HALF_PI) % (FX_TAU as int))
}

/// Reduce an angle to its phase in `[0, FX_TAU)`.
fn fx_phase_of(a: i64) -> (u: i64)
    ensures
        u == fx_phase(a as int),
        0 <= u < FX_TAU,
{
    let c: i64 = fx_clamp(a);
    let b: i64 = c + FX_LIM;
    let u: u64 = (b as u64) % (FX_TAU as u64);
    u as i64
}

/// Sine of a phase already reduced to `[0, FX_TAU)`.
fn fx_sin_phase(u: i64) -> (r: i64)
    requires
        0 <= u < FX_TAU,
    ensures
        r == fx_sin_at(u as int),
        -FX_ONE <= r <= FX_ONE,
{
    let (v, neg): (i64, bool) = if u <= FX_PI { (u, false) } else { (u - FX_PI, true) };
    assert(0 <= v <= FX_PI);
    assert(4 * FX_ONE * v * (FX_PI - v) <= FX_ONE * (FX_PI * FX_PI)) by (nonlinear_arith)
        requires
            0 <= v <= FX_PI,
    ;
    assert(0 <= 4 * FX_ONE * v * (FX_PI - v)) by (nonlinear_arith)
        requires
            0 <= v <= FX_PI,
    ;
    let num: u128 = 4 * (FX_ONE as u128) * (v as u128) * ((FX_PI - v) as u128);
    let den: u128 = (FX_PI as u128) * (FX_PI as u128);
    let q: u128 = num / den;
    proof {
        vstd::arithmetic::div_mod::lemma_div_is_ordered(
            num as int,
            FX_ONE * (FX_PI * FX_PI),
            den as int,
        );
        vstd::arithmetic::div_mod::lemma_div_multiples_vanish(FX_ONE as int, den as int);
        vstd::arithmetic::div_mod::lemma_div_is_ordered(0, num as int, den as int);
    }
    let m: i64 = q as i64;
    if neg {
        -m
    } else {
        m
    }
}

/// Fixed-point sine under the documented convention: the phase is
/// reduced into one turn and fed to the quadratic half wave.  The
/// result always lies in `[-FX_ONE, FX_ONE]`.
pub fn fx_sin(a: i64) -> (r: i64)
    ensures
        r == fx_sin_val(a as int),
        -FX_ONE <= r <= FX_ONE,
{
    let u: i64 = fx_phase_of(a);
    fx_sin_phase(u)
}

/// Fixed-point cosine under the documented convention: the sine a
/// quarter turn ahead.  The result always lies in `[-FX_ONE, FX_ONE]`.
pub fn fx_cos(a: i64) -> (r: i64)
    ensures
        r == fx_cos_val(a as int),
        -FX_ONE <= r <= FX_ONE,
{
    let u: i64 = fx_phase_of(a);
    let w: u64 = ((u + FX_HALF_PI) as u64) % (FX_TAU as u64);
    fx_sin_phase(w as i64)
}

/// The value of a fixed-point ratio of two machine integers,
/// `num / den` in real terms, rounded toward zero and clipped into
/// the band.
pub open spec fn frac_val(num: int, den: int) -> int
    recommends
        den > 0,
{
    let q = (fx_mag(num) * (FX_ONE as int)) / den;
    if num < 0 {
        fx_clip(-q)
    } else {
        fx_clip(q)
    }
}

/// The fixed-point ratio of two machine integers, toward zero,
/// saturated into the band.
pub fn frac_fx(num: i64, den: i64) -> (r: i64)
    requires
        den > 0,
    ensures
        r == frac_val(num as int, den as int),
        fx_in_range(r as int),
{
    let m: u64 = if num >= 0 {
        num as u64
    } else {
        (-(num as i128)) as u64
    };
    let q: u128 = (m as u128) * (FX_ONE as u128) / (den as u128);
    let c: i64 = if q > FX_LIM as u128 {
        FX_LIM
    } else {
        q as i64
    };
    if num < 0 {
        -c
    } else {
        c
    }
}

} // verus!
