//! Fixed-point scalar and vector arithmetic for the simulation.
//!
//! One simulation unit is `SCALE` fixed-point sub-units.  All quantities
//! (positions, velocities, radii) are `i64` values in sub-units; the spec
//! functions here describe them over mathematical integers.

use vstd::prelude::*;

verus! {

/// Number of fixed-point sub-units per simulation unit.
pub const SCALE: i64 = 1000;

/// Half a unit, for rounding a coordinate to the nearest whole unit.
pub const HALF_SCALE: i64 = 500;

/// Largest magnitude `normalize` and `clamp_len` accept; keeps every
/// intermediate square comfortably inside `i64` range.
pub const NORM_LIMIT: i64 = 0x4000_0000;

/// Largest coordinate the simulation accepts, in sub-units (one million
/// units); squared distances between such coordinates stay within `i64`.
pub const DIM_LIMIT: i64 = 1_000_000_000;

pub open spec fn abs_val(a: int) -> int {
    if a < 0 { -a } else { a }
}

/// Truncating (round-toward-zero) division by a positive divisor: the
/// quotient Rust's `/` computes on machine integers.
pub open spec fn div_z(a: int, b: int) -> int
    recommends
        b > 0,
{
    if a >= 0 {
        a / b
    } else {
        -((-a) / b)
    }
}

/// Floor square root: the greatest `r` with `r * r <= q`.
pub open spec fn sqrt_floor(q: int) -> int
    recommends
        q >= 0,
    decreases q,
{
    if q <= 0 {
        0
    } else {
        let r = sqrt_floor(q - 1);
        if (r + 1) * (r + 1) <= q {
            r + 1
        } else {
            r
        }
    }
}

/// `sqrt_floor` is the floor of the square root: it is nonnegative, its
/// square is at most `q`, and the next square is beyond `q`.
pub proof fn lemma_sqrt_floor_bounds(q: int)
    requires
        q >= 0,
    ensures
        0 <= sqrt_floor(q),
        sqrt_floor(q) * sqrt_floor(q) <= q,
        q < (sqrt_floor(q) + 1) * (sqrt_floor(q) + 1),
    decreases q,
{
    if q == 0 {
    } else {
        lemma_sqrt_floor_bounds(q - 1);
        let r = sqrt_floor(q - 1);
        if (r + 1) * (r + 1) <= q {
            assert(q - 1 < (r + 1) * (r + 1));
            assert(q == (r + 1) * (r + 1));
            assert((r + 1 + 1) * (r + 1 + 1) > q) by (nonlinear_arith)
                requires
                    r >= 0,
                    q == (r + 1) * (r + 1),
            ;
        }
    }
}

/// The floor square root is the unique `r` with `r * r <= q < (r+1)*(r+1)`.
pub proof fn lemma_sqrt_floor_unique(q: int, r: int)
    requires
        q >= 0,
        r >= 0,
        r * r <= q,
        q < (r + 1) * (r + 1),
    ensures
        r == sqrt_floor(q),
{
    lemma_sqrt_floor_bounds(q);
    let s = sqrt_floor(q);
    if r < s {
        assert((r + 1) * (r + 1) <= s * s) by (nonlinear_arith)
            requires
                0 <= r + 1 <= s,
        ;
    } else if s < r {
        assert((s + 1) * (s + 1) <= r * r) by (nonlinear_arith)
            requires
                0 <= s + 1 <= r,
        ;
    }
}

/// If `q` is at most `s * s` then its floor square root is at most `s`.
pub proof fn lemma_sqrt_floor_le(q: int, s: int)
    requires
        0 <= q,
        0 <= s,
        q <= s * s,
    ensures
        sqrt_floor(q) <= s,
{
    lemma_sqrt_floor_bounds(q);
    let r = sqrt_floor(q);
    if r > s {
        assert((s + 1) * (s + 1) <= r * r) by (nonlinear_arith)
            requires
                0 <= s + 1 <= r,
        ;
        assert(s * s < (s + 1) * (s + 1)) by (nonlinear_arith)
            requires
                s >= 0,
        ;
        assert(false);
    }
}

/// Each component of a vector is bounded by the floor square root of the
/// squared length.
pub proof fn lemma_component_le_sqrt(dx: int, dy: int)
    requires
        dx * dx + dy * dy >= 0,
    ensures
        abs_val(dx) <= sqrt_floor(dx * dx + dy * dy),
        abs_val(dy) <= sqrt_floor(dx * dx + dy * dy),
    {
    let q = dx * dx + dy * dy;
    let ax = abs_val(dx);
    let ay = abs_val(dy);
    assert(ax * ax <= q && ay * ay <= q && q >= 0 && ax >= 0 && ay >= 0) by (nonlinear_arith)
        requires
            q == dx * dx + dy * dy,
            ax == dx || ax == -dx,
            ay == dy || ay == -dy,
            ax >= 0,
            ay >= 0,
    ;
    lemma_sqrt_floor_bounds(q);
    let r = sqrt_floor(q);
    if abs_val(dx) > r {
        assert((r + 1) * (r + 1) <= abs_val(dx) * abs_val(dx)) by (nonlinear_arith)
            requires
                0 <= r + 1 <= abs_val(dx),
        ;
    }
    if abs_val(dy) > r {
        assert((r + 1) * (r + 1) <= abs_val(dy) * abs_val(dy)) by (nonlinear_arith)
            requires
                0 <= r + 1 <= abs_val(dy),
        ;
    }
}

/// The floor square root of a squared length is at most the sum of the
/// component magnitudes.
pub proof fn lemma_sqrt_le_component_sum(dx: int, dy: int)
    ensures
        sqrt_floor(dx * dx + dy * dy) <= abs_val(dx) + abs_val(dy),
{
    let q = dx * dx + dy * dy;
    let s = abs_val(dx) + abs_val(dy);
    assert(q >= 0 && q <= s * s) by (nonlinear_arith)
        requires
            q == dx * dx + dy * dy,
            s == abs_val(dx) + abs_val(dy),
            abs_val(dx) == dx || abs_val(dx) == -dx,
            abs_val(dy) == dy || abs_val(dy) == -dy,
            abs_val(dx) >= 0,
            abs_val(dy) >= 0,
    ;
    lemma_sqrt_floor_le(q, s);
}

/// Truncating division keeps the sign of the dividend and its magnitude
/// scales down: `|div_z(a, b)| * b <= |a| < (|div_z(a, b)| + 1) * b`, with
/// equality to zero exactly when `|a| < b`.
pub proof fn lemma_div_z_basics(a: int, b: int)
    requires
        b > 0,
    ensures
        a >= 0 ==> div_z(a, b) >= 0,
        a <= 0 ==> div_z(a, b) <= 0,
        abs_val(div_z(a, b)) * b <= abs_val(a),
        abs_val(a) < (abs_val(div_z(a, b)) + 1) * b,
        abs_val(a) < b ==> div_z(a, b) == 0,
        abs_val(a) >= b ==> abs_val(div_z(a, b)) >= 1,
        div_z(-a, b) == -div_z(a, b),
{
    let m = abs_val(a);
    vstd::arithmetic::div_mod::lemma_fundamental_div_mod(m, b);
    vstd::arithmetic::div_mod::lemma_remainder_lower(m, b);
    vstd::arithmetic::div_mod::lemma_remainder_upper(m, b);
    vstd::arithmetic::div_mod::lemma_div_pos_is_pos(m, b);
    assert(abs_val(div_z(a, b)) == m / b);
    assert(m == b * (m / b) + m % b);
    assert(b * (m / b) + b == (m / b + 1) * b) by (nonlinear_arith);
    if m < b {
        vstd::arithmetic::div_mod::lemma_basic_div(m, b);
    }
    if m >= b {
        vstd::arithmetic::div_mod::lemma_div_is_ordered(b, m, b);
        vstd::arithmetic::div_mod::lemma_div_by_self(b);
    }
}

/// If `|a| <= b * c` then `|div_z(a, b)| <= c`.
pub proof fn lemma_div_z_le(a: int, b: int, c: int)
    requires
        b > 0,
        c >= 0,
        abs_val(a) <= b * c,
    ensures
        abs_val(div_z(a, b)) <= c,
{
    lemma_div_z_basics(a, b);
    let d = abs_val(div_z(a, b));
    if d > c {
        assert(d * b > c * b) by (nonlinear_arith)
            requires
                d > c,
                b > 0,
        ;
        assert(c * b == b * c) by (nonlinear_arith);
    }
}

/// Truncating division, as executable code on `i64`.
pub fn div_trunc(a: i64, b: i64) -> (r: i64)
    requires
        b > 0,
        a > i64::MIN,
    ensures
        r == div_z(a as int, b as int),
{
    proof {
        lemma_div_z_basics(a as int, b as int);
    }
    if a >= 0 {
        ((a as u64) / (b as u64)) as i64
    } else {
        let m = (-a) as u64;
        -((m / (b as u64)) as i64)
    }
}

/// Floor square root, as executable code on `u64` (by binary search).
pub fn isqrt(q: u64) -> (r: u64)
    requires
        q < 0x4000_0000_0000_0000,
    ensures
        r == sqrt_floor(q as int),
        r <= 0x8000_0000,
{
    let mut lo: u64 = 0;
    let mut hi: u64 = 0x8000_0000;
    assert(q < hi * hi) by (nonlinear_arith)
        requires
            q < 0x4000_0000_0000_0000,
            hi == 0x8000_0000u64,
    ;
    while lo + 1 < hi
        invariant
            lo < hi <= 0x8000_0000,
            lo * lo <= q,
            q < hi * hi,
        decreases hi - lo,
    {
        let mid = lo + (hi - lo) / 2;
        assert(lo < mid < hi);
        assert(mid * mid < 0x8000_0000_0000_0000u64) by (nonlinear_arith)
            requires
                mid < 0x8000_0000u64,
        ;
        if mid * mid <= q {
            lo = mid;
        } else {
            hi = mid;
        }
    }
    proof {
        lemma_sqrt_floor_unique(q as int, lo as int);
    }
    lo
}

/// Dot product of two vectors given componentwise.
pub open spec fn dot(x0: int, y0: int, x1: int, y1: int) -> int {
    x0 * x1 + y0 * y1
}

/// Below this magnitude, `norm_spec` measures the length on the
/// pre-scaled vector, so that normalization stays accurate even for
/// vectors much shorter than one unit.
pub const PRESCALE_LIMIT: i64 = 1_000_000;

/// A vector scaled to length `SCALE` (one unit), or the zero vector if it
/// already is zero.  For inputs within `PRESCALE_LIMIT` the length is
/// measured on the vector pre-scaled by `SCALE`, so the result's length is
/// within a few sub-units of one unit however short the input is; larger
/// inputs are divided by their own floor-square-root length, which is just
/// as accurate at that magnitude.
pub open spec fn norm_spec(x: int, y: int) -> (int, int) {
    if -PRESCALE_LIMIT <= x <= PRESCALE_LIMIT && -PRESCALE_LIMIT <= y <= PRESCALE_LIMIT {
        let n = sqrt_floor((x * x + y * y) * (SCALE * SCALE));
        if n == 0 {
            (0, 0)
        } else {
            (div_z(x * (SCALE * SCALE), n), div_z(y * (SCALE * SCALE), n))
        }
    } else {
        let n = sqrt_floor(x * x + y * y);
        if n == 0 {
            (0, 0)
        } else {
            (div_z(x * SCALE, n), div_z(y * SCALE, n))
        }
    }
}

/// Core of the normalization bounds.  For a vector `(xm, ym)` whose
/// squared length is exactly `qq * SCALE * SCALE` with `qq` at least
/// `SCALE * SCALE`, dividing each component by `sqrt_floor(qq)` yields a
/// vector with components bounded by `SCALE` and squared length within
/// `[(SCALE-3)^2, (SCALE+1)^2)`.
proof fn lemma_scaled_div_unit(xm: int, ym: int, qq: int)
    requires
        qq >= SCALE * SCALE,
        xm * xm + ym * ym == qq * (SCALE * SCALE),
    ensures
        sqrt_floor(qq) >= SCALE,
        abs_val(div_z(xm, sqrt_floor(qq))) <= SCALE,
        abs_val(div_z(ym, sqrt_floor(qq))) <= SCALE,
        (SCALE - 3) * (SCALE - 3) <= div_z(xm, sqrt_floor(qq)) * div_z(xm, sqrt_floor(qq)) + div_z(
            ym,
            sqrt_floor(qq),
        ) * div_z(ym, sqrt_floor(qq)),
        div_z(xm, sqrt_floor(qq)) * div_z(xm, sqrt_floor(qq)) + div_z(ym, sqrt_floor(qq)) * div_z(
            ym,
            sqrt_floor(qq),
        ) < (SCALE + 1) * (SCALE + 1),
{
    lemma_sqrt_floor_bounds(qq);
    let n = sqrt_floor(qq);
    assert(n >= SCALE) by (nonlinear_arith)
        requires
            qq >= SCALE * SCALE,
            qq < (n + 1) * (n + 1),
            n >= 0,
            SCALE == 1000,
    ;
    let r0 = div_z(xm, n);
    let r1 = div_z(ym, n);
    lemma_div_z_basics(xm, n);
    lemma_div_z_basics(ym, n);
    let a0 = abs_val(r0);
    let a1 = abs_val(r1);
    let mx = abs_val(xm);
    let my = abs_val(ym);
    assert(mx < (n + 1) * SCALE && my < (n + 1) * SCALE) by (nonlinear_arith)
        requires
            xm * xm + ym * ym == qq * (SCALE * SCALE),
            qq < (n + 1) * (n + 1),
            (mx == xm || mx == -xm),
            (my == ym || my == -ym),
            mx >= 0,
            my >= 0,
            n >= 0,
            SCALE == 1000,
    ;
    assert(a0 <= SCALE && a1 <= SCALE) by (nonlinear_arith)
        requires
            a0 * n <= mx,
            a1 * n <= my,
            mx < (n + 1) * SCALE,
            my < (n + 1) * SCALE,
            n >= SCALE,
            SCALE == 1000,
            a0 >= 0,
            a1 >= 0,
    ;
    assert(a0 * a0 * (n * n) <= xm * xm) by (nonlinear_arith)
        requires
            a0 * n <= mx,
            a0 >= 0,
            n > 0,
            mx >= 0,
            (mx == xm || mx == -xm),
    ;
    assert(a1 * a1 * (n * n) <= ym * ym) by (nonlinear_arith)
        requires
            a1 * n <= my,
            a1 >= 0,
            n > 0,
            my >= 0,
            (my == ym || my == -ym),
    ;
    assert(a0 * a0 * (n * n) + a1 * a1 * (n * n) <= qq * (SCALE * SCALE));
    assert(a0 * a0 + a1 * a1 < (SCALE + 1) * (SCALE + 1)) by (nonlinear_arith)
        requires
            a0 * a0 * (n * n) + a1 * a1 * (n * n) <= qq * (SCALE * SCALE),
            qq < (n + 1) * (n + 1),
            n >= SCALE,
            SCALE == 1000,
            a0 >= 0,
            a1 >= 0,
    ;
    assert(xm * xm < (a0 + 1) * (a0 + 1) * (n * n)) by (nonlinear_arith)
        requires
            mx < (a0 + 1) * n,
            mx >= 0,
            a0 >= 0,
            n > 0,
            (mx == xm || mx == -xm),
    ;
    assert(ym * ym < (a1 + 1) * (a1 + 1) * (n * n)) by (nonlinear_arith)
        requires
            my < (a1 + 1) * n,
            my >= 0,
            a1 >= 0,
            n > 0,
            (my == ym || my == -ym),
    ;
    assert(qq * (SCALE * SCALE) < ((a0 + 1) * (a0 + 1) + (a1 + 1) * (a1 + 1)) * (n * n))
        by (nonlinear_arith)
        requires
            xm * xm < (a0 + 1) * (a0 + 1) * (n * n),
            ym * ym < (a1 + 1) * (a1 + 1) * (n * n),
            xm * xm + ym * ym == qq * (SCALE * SCALE),
    ;
    assert(SCALE * SCALE < (a0 + 1) * (a0 + 1) + (a1 + 1) * (a1 + 1)) by (nonlinear_arith)
        requires
            qq * (SCALE * SCALE) < ((a0 + 1) * (a0 + 1) + (a1 + 1) * (a1 + 1)) * (n * n),
            n * n <= qq,
            qq >= 0,
            n > 0,
            SCALE == 1000,
    ;
    assert((SCALE - 3) * (SCALE - 3) <= a0 * a0 + a1 * a1) by (nonlinear_arith)
        requires
            SCALE * SCALE < (a0 + 1) * (a0 + 1) + (a1 + 1) * (a1 + 1),
            a0 <= SCALE,
            a1 <= SCALE,
            a0 >= 0,
            a1 >= 0,
            SCALE == 1000,
    ;
    assert(r0 * r0 == a0 * a0 && r1 * r1 == a1 * a1) by (nonlinear_arith)
        requires
            (a0 == r0 || a0 == -r0),
            (a1 == r1 || a1 == -r1),
    ;
}

/// The components of a normalized vector keep the signs of the input and
/// are bounded by `SCALE`.
pub proof fn lemma_norm_bounds(x: int, y: int)
    ensures
        abs_val(norm_spec(x, y).0) <= SCALE,
        abs_val(norm_spec(x, y).1) <= SCALE,
        x >= 0 ==> norm_spec(x, y).0 >= 0,
        x <= 0 ==> norm_spec(x, y).0 <= 0,
        y >= 0 ==> norm_spec(x, y).1 >= 0,
        y <= 0 ==> norm_spec(x, y).1 <= 0,
{
    let q = x * x + y * y;
    assert(q >= 0) by (nonlinear_arith)
        requires
            q == x * x + y * y,
    ;
    if -PRESCALE_LIMIT <= x <= PRESCALE_LIMIT && -PRESCALE_LIMIT <= y <= PRESCALE_LIMIT {
        let qq = q * (SCALE * SCALE);
        lemma_sqrt_floor_bounds(qq);
        let n = sqrt_floor(qq);
        if n != 0 {
            assert(qq >= 1) by (nonlinear_arith)
                requires
                    n >= 1,
                    n * n <= qq,
            ;
            assert(q >= 1) by (nonlinear_arith)
                requires
                    qq >= 1,
                    qq == q * (SCALE * SCALE),
                    SCALE == 1000,
            ;
            assert(qq >= SCALE * SCALE) by (nonlinear_arith)
                requires
                    q >= 1,
                    qq == q * (SCALE * SCALE),
                    SCALE == 1000,
            ;
            assert(x * (SCALE * SCALE) * (x * (SCALE * SCALE)) + y * (SCALE * SCALE) * (y * (SCALE
                * SCALE)) == qq * (SCALE * SCALE)) by (nonlinear_arith)
                requires
                    q == x * x + y * y,
                    qq == q * (SCALE * SCALE),
                    SCALE == 1000,
            ;
            lemma_scaled_div_unit(x * (SCALE * SCALE), y * (SCALE * SCALE), qq);
            lemma_div_z_basics(x * (SCALE * SCALE), n);
            lemma_div_z_basics(y * (SCALE * SCALE), n);
            assert(x >= 0 ==> x * (SCALE * SCALE) >= 0) by (nonlinear_arith);
            assert(x <= 0 ==> x * (SCALE * SCALE) <= 0) by (nonlinear_arith);
            assert(y >= 0 ==> y * (SCALE * SCALE) >= 0) by (nonlinear_arith);
            assert(y <= 0 ==> y * (SCALE * SCALE) <= 0) by (nonlinear_arith);
        }
    } else {
        let n = sqrt_floor(q);
        lemma_sqrt_floor_bounds(q);
        lemma_component_le_sqrt(x, y);
        if n != 0 {
            let ax = abs_val(x);
            let ay = abs_val(y);
            let axs = abs_val(x * SCALE);
            let ays = abs_val(y * SCALE);
            assert(axs <= n * SCALE && ays <= n * SCALE) by (nonlinear_arith)
                requires
                    ax == x || ax == -x,
                    ay == y || ay == -y,
                    axs == x * SCALE || axs == -(x * SCALE),
                    ays == y * SCALE || ays == -(y * SCALE),
                    ax >= 0,
                    ay >= 0,
                    axs >= 0,
                    ays >= 0,
                    ax <= n,
                    ay <= n,
                    SCALE == 1000,
            ;
            lemma_div_z_le(x * SCALE, n, SCALE as int);
            lemma_div_z_le(y * SCALE, n, SCALE as int);
            lemma_div_z_basics(x * SCALE, n);
            lemma_div_z_basics(y * SCALE, n);
            assert(x >= 0 ==> x * SCALE >= 0) by (nonlinear_arith);
            assert(x <= 0 ==> x * SCALE <= 0) by (nonlinear_arith);
            assert(y >= 0 ==> y * SCALE >= 0) by (nonlinear_arith);
            assert(y <= 0 ==> y * SCALE <= 0) by (nonlinear_arith);
        }
    }
}

/// A normalized nonzero vector has unit length up to the fixed-point
/// granularity: its squared length lies in `[(SCALE-3)^2, (SCALE+1)^2)`.
pub proof fn lemma_norm_unit_length(x: int, y: int)
    requires
        x != 0 || y != 0,
    ensures
        (SCALE - 3) * (SCALE - 3) <= norm_spec(x, y).0 * norm_spec(x, y).0 + norm_spec(x, y).1
            * norm_spec(x, y).1,
        norm_spec(x, y).0 * norm_spec(x, y).0 + norm_spec(x, y).1 * norm_spec(x, y).1 < (SCALE + 1)
            * (SCALE + 1),
{
    let q = x * x + y * y;
    assert(q >= 1) by (nonlinear_arith)
        requires
            q == x * x + y * y,
            x != 0 || y != 0,
    ;
    if -PRESCALE_LIMIT <= x <= PRESCALE_LIMIT && -PRESCALE_LIMIT <= y <= PRESCALE_LIMIT {
        let qq = q * (SCALE * SCALE);
        assert(qq >= SCALE * SCALE) by (nonlinear_arith)
            requires
                q >= 1,
                qq == q * (SCALE * SCALE),
                SCALE == 1000,
        ;
        lemma_sqrt_floor_bounds(qq);
        assert(x * (SCALE * SCALE) * (x * (SCALE * SCALE)) + y * (SCALE * SCALE) * (y * (SCALE
            * SCALE)) == qq * (SCALE * SCALE)) by (nonlinear_arith)
            requires
                q == x * x + y * y,
                qq == q * (SCALE * SCALE),
                SCALE == 1000,
        ;
        lemma_scaled_div_unit(x * (SCALE * SCALE), y * (SCALE * SCALE), qq);
    } else {
        assert(q >= SCALE * SCALE) by (nonlinear_arith)
            requires
                q == x * x + y * y,
                x < -1_000_000 || x > 1_000_000 || y < -1_000_000 || y > 1_000_000,
                SCALE == 1000,
        ;
        assert(x * SCALE * (x * SCALE) + y * SCALE * (y * SCALE) == q * (SCALE * SCALE))
            by (nonlinear_arith)
            requires
                q == x * x + y * y,
                SCALE == 1000,
        ;
        lemma_scaled_div_unit(x * SCALE, y * SCALE, q);
    }
}

/// Normalizing flips with the vector: `norm_spec(-x, -y)` is the
/// componentwise negation of `norm_spec(x, y)`.
pub proof fn lemma_norm_neg(x: int, y: int)
    ensures
        norm_spec(-x, -y).0 == -norm_spec(x, y).0,
        norm_spec(-x, -y).1 == -norm_spec(x, y).1,
{
    assert((-x) * (-x) + (-y) * (-y) == x * x + y * y && x * x + y * y >= 0) by (nonlinear_arith);
    let q = x * x + y * y;
    if -PRESCALE_LIMIT <= x <= PRESCALE_LIMIT && -PRESCALE_LIMIT <= y <= PRESCALE_LIMIT {
        lemma_sqrt_floor_bounds(q * (SCALE * SCALE));
        let n = sqrt_floor(q * (SCALE * SCALE));
        if n != 0 {
            lemma_div_z_basics(x * (SCALE * SCALE), n);
            lemma_div_z_basics(y * (SCALE * SCALE), n);
            assert((-x) * (SCALE * SCALE) == -(x * (SCALE * SCALE)) && (-y) * (SCALE * SCALE) == -(
            y * (SCALE * SCALE))) by (nonlinear_arith);
        }
    } else {
        lemma_sqrt_floor_bounds(q);
        let n = sqrt_floor(q);
        if n != 0 {
            lemma_div_z_basics(x * SCALE, n);
            lemma_div_z_basics(y * SCALE, n);
            assert((-x) * SCALE == -(x * SCALE) && (-y) * SCALE == -(y * SCALE))
                by (nonlinear_arith);
        }
    }
}

/// A normalized vector still points the way of its input: its dot
/// product with the input vector is strictly positive when the vector is
/// not zero.
pub proof fn lemma_norm_dot_pos(x: int, y: int)
    requires
        x != 0 || y != 0,
    ensures
        norm_spec(x, y).0 * x + norm_spec(x, y).1 * y > 0,
{
    let q = x * x + y * y;
    assert(q >= 1) by (nonlinear_arith)
        requires
            q == x * x + y * y,
            x != 0 || y != 0,
    ;
    if -PRESCALE_LIMIT <= x <= PRESCALE_LIMIT && -PRESCALE_LIMIT <= y <= PRESCALE_LIMIT {
        let qq = q * (SCALE * SCALE);
        assert(qq >= SCALE * SCALE) by (nonlinear_arith)
            requires
                q >= 1,
                qq == q * (SCALE * SCALE),
                SCALE == 1000,
        ;
        lemma_sqrt_floor_bounds(qq);
        let n = sqrt_floor(qq);
        assert(n >= 1) by (nonlinear_arith)
            requires
                qq >= SCALE * SCALE,
                qq < (n + 1) * (n + 1),
                n >= 0,
                SCALE == 1000,
        ;
        let s = abs_val(x) + abs_val(y);
        assert(qq <= (SCALE * s) * (SCALE * s)) by (nonlinear_arith)
            requires
                qq == q * (SCALE * SCALE),
                q == x * x + y * y,
                s == abs_val(x) + abs_val(y),
                abs_val(x) == x || abs_val(x) == -x,
                abs_val(y) == y || abs_val(y) == -y,
                abs_val(x) >= 0,
                abs_val(y) >= 0,
                SCALE == 1000,
        ;
        lemma_sqrt_floor_le(qq, SCALE * s);
        let u0 = div_z(x * (SCALE * SCALE), n);
        let u1 = div_z(y * (SCALE * SCALE), n);
        lemma_div_z_basics(x * (SCALE * SCALE), n);
        lemma_div_z_basics(y * (SCALE * SCALE), n);
        if abs_val(x) >= abs_val(y) {
            assert(x != 0);
            assert(abs_val(x * (SCALE * SCALE)) >= n) by (nonlinear_arith)
                requires
                    n <= SCALE * (abs_val(x) + abs_val(y)),
                    abs_val(y) <= abs_val(x),
                    abs_val(x) >= 1,
                    (abs_val(x * (SCALE * SCALE)) == x * (SCALE * SCALE) || abs_val(
                        x * (SCALE * SCALE),
                    ) == -(x * (SCALE * SCALE))),
                    (abs_val(x) == x || abs_val(x) == -x),
                    abs_val(x * (SCALE * SCALE)) >= 0,
                    SCALE == 1000,
            ;
            assert(abs_val(u0) >= 1);
            assert(x >= 0 ==> x * (SCALE * SCALE) >= 0) by (nonlinear_arith);
            assert(x <= 0 ==> x * (SCALE * SCALE) <= 0) by (nonlinear_arith);
            assert(y >= 0 ==> y * (SCALE * SCALE) >= 0) by (nonlinear_arith);
            assert(y <= 0 ==> y * (SCALE * SCALE) <= 0) by (nonlinear_arith);
            assert(u0 * x >= 1) by (nonlinear_arith)
                requires
                    (x > 0 && u0 >= 1) || (x < 0 && u0 <= -1),
            ;
            assert(u1 * y >= 0) by (nonlinear_arith)
                requires
                    (y >= 0 ==> u1 >= 0) && (y <= 0 ==> u1 <= 0),
            ;
        } else {
            assert(y != 0);
            assert(abs_val(y * (SCALE * SCALE)) >= n) by (nonlinear_arith)
                requires
                    n <= SCALE * (abs_val(x) + abs_val(y)),
                    abs_val(x) <= abs_val(y),
                    abs_val(y) >= 1,
                    (abs_val(y * (SCALE * SCALE)) == y * (SCALE * SCALE) || abs_val(
                        y * (SCALE * SCALE),
                    ) == -(y * (SCALE * SCALE))),
                    (abs_val(y) == y || abs_val(y) == -y),
                    abs_val(y * (SCALE * SCALE)) >= 0,
                    SCALE == 1000,
            ;
            assert(abs_val(u1) >= 1);
            assert(x >= 0 ==> x * (SCALE * SCALE) >= 0) by (nonlinear_arith);
            assert(x <= 0 ==> x * (SCALE * SCALE) <= 0) by (nonlinear_arith);
            assert(y >= 0 ==> y * (SCALE * SCALE) >= 0) by (nonlinear_arith);
            assert(y <= 0 ==> y * (SCALE * SCALE) <= 0) by (nonlinear_arith);
            assert(u1 * y >= 1) by (nonlinear_arith)
                requires
                    (y > 0 && u1 >= 1) || (y < 0 && u1 <= -1),
            ;
            assert(u0 * x >= 0) by (nonlinear_arith)
                requires
                    (x >= 0 ==> u0 >= 0) && (x <= 0 ==> u0 <= 0),
            ;
        }
    } else {
        lemma_sqrt_floor_bounds(q);
        let n = sqrt_floor(q);
        assert(n >= 1) by (nonlinear_arith)
            requires
                q >= 1,
                q < (n + 1) * (n + 1),
                n >= 0,
        ;
        lemma_sqrt_le_component_sum(x, y);
        let u0 = div_z(x * SCALE, n);
        let u1 = div_z(y * SCALE, n);
        lemma_div_z_basics(x * SCALE, n);
        lemma_div_z_basics(y * SCALE, n);
        if abs_val(x) >= abs_val(y) {
            assert(x != 0);
            assert(abs_val(x * SCALE) >= n);
            assert(abs_val(u0) >= 1);
            assert(u0 * x >= 1) by (nonlinear_arith)
                requires
                    (x > 0 && u0 >= 1) || (x < 0 && u0 <= -1),
            ;
            assert(u1 * y >= 0) by (nonlinear_arith)
                requires
                    (y >= 0 ==> u1 >= 0) && (y <= 0 ==> u1 <= 0),
            ;
        } else {
            assert(y != 0);
            assert(abs_val(y * SCALE) >= n);
            assert(abs_val(u1) >= 1);
            assert(u1 * y >= 1) by (nonlinear_arith)
                requires
                    (y > 0 && u1 >= 1) || (y < 0 && u1 <= -1),
            ;
            assert(u0 * x >= 0) by (nonlinear_arith)
                requires
                    (x >= 0 ==> u0 >= 0) && (x <= 0 ==> u0 <= 0),
            ;
        }
    }
}

/// Normalizing a vector that agrees in sign, componentwise, with a
/// direction `(dx, dy)` yields a vector whose dot product with that
/// direction is strictly positive.
pub proof fn lemma_norm_dot_aligned(tx: int, ty: int, dx: int, dy: int)
    requires
        tx != 0 || ty != 0,
        dx > 0 ==> tx >= 0,
        dx < 0 ==> tx <= 0,
        dx == 0 ==> tx == 0,
        dy > 0 ==> ty >= 0,
        dy < 0 ==> ty <= 0,
        dy == 0 ==> ty == 0,
    ensures
        norm_spec(tx, ty).0 * dx + norm_spec(tx, ty).1 * dy > 0,
{
    lemma_norm_dot_pos(tx, ty);
    lemma_norm_bounds(tx, ty);
    let u0 = norm_spec(tx, ty).0;
    let u1 = norm_spec(tx, ty).1;
    assert(u0 * tx >= 0) by (nonlinear_arith)
        requires
            (tx >= 0 ==> u0 >= 0) && (tx <= 0 ==> u0 <= 0),
    ;
    assert(u1 * ty >= 0) by (nonlinear_arith)
        requires
            (ty >= 0 ==> u1 >= 0) && (ty <= 0 ==> u1 <= 0),
    ;
    if u0 * tx > 0 {
        assert(u0 != 0 && tx != 0) by (nonlinear_arith)
            requires
                u0 * tx > 0,
        ;
        assert((u0 > 0 && tx > 0) || (u0 < 0 && tx < 0)) by (nonlinear_arith)
            requires
                u0 * tx > 0,
        ;
        assert(u0 * dx >= 1) by (nonlinear_arith)
            requires
                (u0 > 0 && dx >= 1) || (u0 < 0 && dx <= -1),
        ;
        assert(u1 * dy >= 0) by (nonlinear_arith)
            requires
                (dy > 0 ==> u1 >= 0) && (dy < 0 ==> u1 <= 0),
        ;
    } else {
        assert(u1 * ty > 0);
        assert((u1 > 0 && ty > 0) || (u1 < 0 && ty < 0)) by (nonlinear_arith)
            requires
                u1 * ty > 0,
        ;
        assert(u1 * dy >= 1) by (nonlinear_arith)
            requires
                (u1 > 0 && dy >= 1) || (u1 < 0 && dy <= -1),
        ;
        assert(u0 * dx >= 0) by (nonlinear_arith)
            requires
                (dx > 0 ==> u0 >= 0) && (dx < 0 ==> u0 <= 0),
        ;
    }
}

/// Executable normalization to length `SCALE`.
pub fn normalize(x: i64, y: i64) -> (r: (i64, i64))
    requires
        -NORM_LIMIT <= x <= NORM_LIMIT,
        -NORM_LIMIT <= y <= NORM_LIMIT,
    ensures
        r.0 == norm_spec(x as int, y as int).0,
        r.1 == norm_spec(x as int, y as int).1,
        abs_val(r.0 as int) <= SCALE,
        abs_val(r.1 as int) <= SCALE,
        x == 0 && y == 0 ==> r.0 == 0 && r.1 == 0,
        (x != 0 || y != 0) ==> (SCALE - 3) * (SCALE - 3) <= r.0 * r.0 + r.1 * r.1 < (SCALE + 1) * (
        SCALE + 1),
{
    proof {
        lemma_norm_bounds(x as int, y as int);
        if x != 0 || y != 0 {
            lemma_norm_unit_length(x as int, y as int);
        }
    }
    if -PRESCALE_LIMIT <= x && x <= PRESCALE_LIMIT && -PRESCALE_LIMIT <= y && y <= PRESCALE_LIMIT {
        proof {
            assert(x * x + y * y <= 2_000_000_000_000 && x * x >= 0 && y * y >= 0
                && x * x <= 1_000_000_000_000 && y * y <= 1_000_000_000_000) by (nonlinear_arith)
                requires
                    -1_000_000 <= x <= 1_000_000,
                    -1_000_000 <= y <= 1_000_000,
            ;
            assert(0 <= (x * x + y * y) * (SCALE * SCALE) <= 2_000_000_000_000_000_000)
                by (nonlinear_arith)
                requires
                    0 <= x * x + y * y <= 2_000_000_000_000,
                    SCALE == 1000,
            ;
        }
        let q: u64 = ((x * x + y * y) * (SCALE * SCALE)) as u64;
        let n: u64 = isqrt(q);
        if n == 0 {
            (0, 0)
        } else {
            (
                div_trunc(x * (SCALE * SCALE), n as i64),
                div_trunc(y * (SCALE * SCALE), n as i64),
            )
        }
    } else {
        proof {
            assert(x * x + y * y < 0x4000_0000_0000_0000 && x * x + y * y >= 0
                && x * x <= 0x4000_0000 * 0x4000_0000 && y * y <= 0x4000_0000 * 0x4000_0000)
                by (nonlinear_arith)
                requires
                    -0x4000_0000 <= x <= 0x4000_0000,
                    -0x4000_0000 <= y <= 0x4000_0000,
            ;
        }
        let q: u64 = (x * x + y * y) as u64;
        let n: u64 = isqrt(q);
        if n == 0 {
            (0, 0)
        } else {
            proof {
                lemma_component_le_sqrt(x as int, y as int);
            }
            (div_trunc(x * SCALE, n as i64), div_trunc(y * SCALE, n as i64))
        }
    }
}

/// A vector scaled down (direction preserved, toward-zero rounding) so that
/// its length does not exceed `cap`; left unchanged when already within.
pub open spec fn clamp_len_spec(x: int, y: int, cap: int) -> (int, int) {
    let s = sqrt_floor(x * x + y * y);
    if s > cap {
        (div_z(x * cap, s), div_z(y * cap, s))
    } else {
        (x, y)
    }
}

/// After clamping, each component is bounded by `cap` and the squared
/// length stays strictly below `(cap + 1) * (cap + 1)`.
pub proof fn lemma_clamp_len_bounds(x: int, y: int, cap: int)
    requires
        cap > 0,
    ensures
        abs_val(clamp_len_spec(x, y, cap).0) <= cap,
        abs_val(clamp_len_spec(x, y, cap).1) <= cap,
        clamp_len_spec(x, y, cap).0 * clamp_len_spec(x, y, cap).0 + clamp_len_spec(x, y, cap).1
            * clamp_len_spec(x, y, cap).1 < (cap + 1) * (cap + 1),
{
    let q = x * x + y * y;
    assert(q >= 0) by (nonlinear_arith)
        requires
            q == x * x + y * y,
    ;
    lemma_sqrt_floor_bounds(q);
    lemma_component_le_sqrt(x, y);
    let s = sqrt_floor(q);
    let ax = abs_val(x);
    let ay = abs_val(y);
    if s > cap {
        let dx = div_z(x * cap, s);
        let dy = div_z(y * cap, s);
        lemma_div_z_basics(x * cap, s);
        lemma_div_z_basics(y * cap, s);
        let adx = abs_val(dx);
        let ady = abs_val(dy);
        let axc = abs_val(x * cap);
        let ayc = abs_val(y * cap);
        assert(axc == ax * cap && ayc == ay * cap) by (nonlinear_arith)
            requires
                cap > 0,
                (axc == x * cap || axc == -(x * cap)),
                axc >= 0,
                (ayc == y * cap || ayc == -(y * cap)),
                ayc >= 0,
                (ax == x || ax == -x),
                ax >= 0,
                (ay == y || ay == -y),
                ay >= 0,
        ;
        assert(adx <= cap && ady <= cap) by (nonlinear_arith)
            requires
                s > cap > 0,
                adx * s <= ax * cap,
                ady * s <= ay * cap,
                ax <= s,
                ay <= s,
                adx >= 0,
                ady >= 0,
        ;
        assert(adx * adx * (s * s) + ady * ady * (s * s) <= q * (cap * cap)) by (nonlinear_arith)
            requires
                s > cap > 0,
                adx * s <= ax * cap,
                ady * s <= ay * cap,
                adx >= 0,
                ady >= 0,
                ax >= 0,
                ay >= 0,
                q == x * x + y * y,
                (ax == x || ax == -x),
                (ay == y || ay == -y),
        ;
        assert(adx * adx + ady * ady < (cap + 1) * (cap + 1)) by (nonlinear_arith)
            requires
                s > cap > 0,
                adx >= 0,
                ady >= 0,
                adx * adx * (s * s) + ady * ady * (s * s) <= q * (cap * cap),
                q < (s + 1) * (s + 1),
        ;
        assert(dx * dx == adx * adx && dy * dy == ady * ady) by (nonlinear_arith)
            requires
                (adx == dx || adx == -dx),
                (ady == dy || ady == -dy),
        ;
    } else {
        assert(x * x + y * y < (cap + 1) * (cap + 1)) by (nonlinear_arith)
            requires
                0 <= s <= cap,
                q == x * x + y * y,
                q < (s + 1) * (s + 1),
        ;
    }
}

/// Executable length clamp: scale the vector down to length `cap` when it
/// is longer, preserving direction.
pub fn clamp_len(x: i64, y: i64, cap: i64) -> (r: (i64, i64))
    requires
        0 < cap <= SCALE,
        -NORM_LIMIT <= x <= NORM_LIMIT,
        -NORM_LIMIT <= y <= NORM_LIMIT,
    ensures
        r.0 == clamp_len_spec(x as int, y as int, cap as int).0,
        r.1 == clamp_len_spec(x as int, y as int, cap as int).1,
        abs_val(r.0 as int) <= cap,
        abs_val(r.1 as int) <= cap,
        r.0 * r.0 + r.1 * r.1 < (cap + 1) * (cap + 1),
{
    proof {
        assert(x * x + y * y < 0x4000_0000_0000_0000 && x * x + y * y >= 0
            && x * x <= 0x4000_0000 * 0x4000_0000 && y * y <= 0x4000_0000 * 0x4000_0000
            && x * x >= 0 && y * y >= 0) by (nonlinear_arith)
            requires
                -0x4000_0000 <= x <= 0x4000_0000,
                -0x4000_0000 <= y <= 0x4000_0000,
        ;
        lemma_clamp_len_bounds(x as int, y as int, cap as int);
    }
    let q: u64 = (x * x + y * y) as u64;
    let s: i64 = isqrt(q) as i64;
    if s > cap {
        proof {
            assert(-0x8000_0000_0000 <= x * cap <= 0x8000_0000_0000
                && -0x8000_0000_0000 <= y * cap <= 0x8000_0000_0000) by (nonlinear_arith)
                requires
                    -0x4000_0000 <= x <= 0x4000_0000,
                    -0x4000_0000 <= y <= 0x4000_0000,
                    0 < cap <= 1000,
            ;
        }
        (div_trunc(x * cap, s), div_trunc(y * cap, s))
    } else {
        (x, y)
    }
}

} // verus!
