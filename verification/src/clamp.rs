//! Speed clamping: rescaling a velocity toward a target norm while keeping
//! its direction, and the bounds that rescaling guarantees.

use vstd::prelude::*;
use crate::components::{nsq, Velocity};
use crate::math::{
    div_away, div_trunc, iabs, lemma_div_away, lemma_div_trunc, lemma_sqrt_ceil, lemma_sqrt_floor,
    sqrt_ceil, sqrt_floor,
};

verus! {

/// Rescales `(x, y)` toward norm `t`, rounding each component toward
/// zero: the result's norm never exceeds `t`.
pub open spec fn scale_trunc_spec(x: int, y: int, t: int) -> (int, int)
    recommends
        nsq(x, y) >= 1,
        t >= 0,
{
    let c = sqrt_ceil(nsq(x, y));
    (div_trunc(x * t, c), div_trunc(y * t, c))
}

/// Rescales `(x, y)` toward norm `t`, rounding each component away from
/// zero: the result's norm is at least `t`.
pub open spec fn scale_away_spec(x: int, y: int, t: int) -> (int, int)
    recommends
        nsq(x, y) >= 1,
        t >= 0,
{
    let m = sqrt_floor(nsq(x, y));
    (div_away(x * t, m), div_away(y * t, m))
}

/// The clamped velocity: kept when its speed already lies in
/// `[min, max]`, rescaled toward the nearer bound otherwise. A zero
/// vector has no direction, so the previous velocity's heading is used,
/// and an agent with no heading at all is sent along the positive x axis.
pub open spec fn clamp_spec(vx: int, vy: int, px: int, py: int, min: int, max: int) -> (int, int)
    recommends
        0 <= min <= max,
{
    let s = nsq(vx, vy);
    if s > max * max {
        scale_trunc_spec(vx, vy, max)
    } else if s >= min * min {
        (vx, vy)
    } else {
        let (ux, uy) = if s == 0 {
            (px, py)
        } else {
            (vx, vy)
        };
        if nsq(ux, uy) == 0 {
            (min, 0)
        } else {
            let (wx, wy) = scale_away_spec(ux, uy, min);
            if nsq(wx, wy) > max * max {
                scale_trunc_spec(wx, wy, max)
            } else {
                (wx, wy)
            }
        }
    }
}

/// Truncated rescaling lands at or below the target norm, each component
/// at or below the target.
pub proof fn lemma_scale_trunc_le(x: int, y: int, t: int)
    requires
        nsq(x, y) >= 1,
        t >= 0,
    ensures
        ({
            let (rx, ry) = scale_trunc_spec(x, y, t);
            nsq(rx, ry) <= t * t && iabs(rx) <= t && iabs(ry) <= t
        }),
{
    let s = nsq(x, y);
    assert(x * x >= 0 && y * y >= 0) by (nonlinear_arith);
    let c = sqrt_ceil(s);
    lemma_sqrt_ceil(s);
    let rx = div_trunc(x * t, c);
    let ry = div_trunc(y * t, c);
    lemma_div_trunc(x * t, c);
    lemma_div_trunc(y * t, c);
    assert(iabs(x * t) == iabs(x) * t && iabs(y * t) == iabs(y) * t) by (nonlinear_arith)
        requires
            t >= 0,
    {
    }
    assert(iabs(x) <= c && iabs(y) <= c) by (nonlinear_arith)
        requires
            x * x <= s,
            y * y <= s,
            s <= c * c,
            c >= 0,
    {
    }
    assert(iabs(rx) <= t && iabs(ry) <= t) by (nonlinear_arith)
        requires
            iabs(rx) * c <= iabs(x) * t,
            iabs(ry) * c <= iabs(y) * t,
            iabs(x) <= c,
            iabs(y) <= c,
            c >= 1,
            t >= 0,
            iabs(rx) >= 0,
            iabs(ry) >= 0,
    {
    }
    assert(rx * rx * (c * c) <= (x * t) * (x * t) && ry * ry * (c * c) <= (y * t) * (y * t))
        by (nonlinear_arith)
        requires
            iabs(rx) * c <= iabs(x * t),
            iabs(ry) * c <= iabs(y * t),
            c >= 1,
            iabs(rx) >= 0,
            iabs(ry) >= 0,
    {
    }
    assert((x * t) * (x * t) + (y * t) * (y * t) == s * (t * t)) by (nonlinear_arith)
        requires
            s == x * x + y * y,
    {
    }
    assert(nsq(rx, ry) <= t * t) by (nonlinear_arith)
        requires
            rx * rx * (c * c) + ry * ry * (c * c) <= s * (t * t),
            s <= c * c,
            c >= 1,
            t >= 0,
    {
    }
}

/// Away-rounded rescaling lands at or above the target norm, each
/// component still at or below the target.
pub proof fn lemma_scale_away_ge(x: int, y: int, t: int)
    requires
        nsq(x, y) >= 1,
        t >= 0,
    ensures
        ({
            let (rx, ry) = scale_away_spec(x, y, t);
            nsq(rx, ry) >= t * t && iabs(rx) <= t && iabs(ry) <= t
        }),
{
    let s = nsq(x, y);
    assert(x * x >= 0 && y * y >= 0) by (nonlinear_arith);
    let m = sqrt_floor(s);
    lemma_sqrt_floor(s);
    if m == 0 {
        assert(s < (0 + 1) * (0 + 1));
    }
    let rx = div_away(x * t, m);
    let ry = div_away(y * t, m);
    lemma_div_away(x * t, m);
    lemma_div_away(y * t, m);
    assert(iabs(x * t) == iabs(x) * t && iabs(y * t) == iabs(y) * t) by (nonlinear_arith)
        requires
            t >= 0,
    {
    }
    assert(iabs(x) <= m && iabs(y) <= m) by (nonlinear_arith)
        requires
            x * x <= s,
            y * y <= s,
            s < (m + 1) * (m + 1),
            m >= 0,
    {
    }
    assert(iabs(rx) <= t && iabs(ry) <= t) by (nonlinear_arith)
        requires
            iabs(rx) * m < iabs(x) * t + m,
            iabs(ry) * m < iabs(y) * t + m,
            iabs(x) <= m,
            iabs(y) <= m,
            m >= 1,
            t >= 0,
            iabs(rx) >= 0,
            iabs(ry) >= 0,
    {
    }
    assert(rx * rx * (m * m) >= (x * t) * (x * t) && ry * ry * (m * m) >= (y * t) * (y * t))
        by (nonlinear_arith)
        requires
            iabs(rx) * m >= iabs(x * t),
            iabs(ry) * m >= iabs(y * t),
            m >= 1,
            iabs(rx) >= 0,
            iabs(ry) >= 0,
    {
    }
    assert((x * t) * (x * t) + (y * t) * (y * t) == s * (t * t)) by (nonlinear_arith)
        requires
            s == x * x + y * y,
    {
    }
    assert(nsq(rx, ry) >= t * t) by (nonlinear_arith)
        requires
            rx * rx * (m * m) + ry * ry * (m * m) >= s * (t * t),
            s >= m * m,
            m >= 1,
            t >= 0,
    {
    }
}

/// Truncated rescaling from strictly above the target norm loses less
/// than `6 t` of squared norm.
pub proof fn lemma_scale_trunc_lower(x: int, y: int, t: int)
    requires
        nsq(x, y) > t * t,
        t >= 0,
    ensures
        ({
            let (rx, ry) = scale_trunc_spec(x, y, t);
            nsq(rx, ry) >= t * t - 6 * t
        }),
{
    let s = nsq(x, y);
    assert(x * x >= 0 && y * y >= 0) by (nonlinear_arith);
    assert(s >= 1) by (nonlinear_arith)
        requires
            s > t * t,
            t >= 0,
    {
    }
    let c = sqrt_ceil(s);
    lemma_sqrt_ceil(s);
    assert(c > t) by (nonlinear_arith)
        requires
            c * c >= s,
            s > t * t,
            t >= 0,
            c >= 0,
    {
    }
    let rx = div_trunc(x * t, c);
    let ry = div_trunc(y * t, c);
    lemma_div_trunc(x * t, c);
    lemma_div_trunc(y * t, c);
    let ax = iabs(x) * t;
    let ay = iabs(y) * t;
    assert(iabs(x * t) == ax && iabs(y * t) == ay && ax >= 0 && ay >= 0) by (nonlinear_arith)
        requires
            t >= 0,
            ax == iabs(x) * t,
            ay == iabs(y) * t,
    {
    }
    assert(iabs(x) <= c && iabs(y) <= c) by (nonlinear_arith)
        requires
            x * x <= s,
            y * y <= s,
            s <= c * c,
            c >= 0,
    {
    }
    assert(ax <= c * t && ay <= c * t) by (nonlinear_arith)
        requires
            iabs(x) <= c,
            iabs(y) <= c,
            t >= 0,
            ax == iabs(x) * t,
            ay == iabs(y) * t,
    {
    }
    // per component: (r c)^2 >= a^2 - 2 a c, whether or not a >= c
    assert(rx * rx * (c * c) >= ax * ax - 2 * ax * c) by (nonlinear_arith)
        requires
            iabs(rx) * c + c > ax,
            iabs(rx) >= 0,
            ax >= 0,
            c >= 1,
    {
    }
    assert(ry * ry * (c * c) >= ay * ay - 2 * ay * c) by (nonlinear_arith)
        requires
            iabs(ry) * c + c > ay,
            iabs(ry) >= 0,
            ay >= 0,
            c >= 1,
    {
    }
    assert(ax * ax + ay * ay == s * (t * t)) by (nonlinear_arith)
        requires
            s == x * x + y * y,
            ax == iabs(x) * t,
            ay == iabs(y) * t,
            t >= 0,
    {
    }
    assert(nsq(rx, ry) * (c * c) >= (t * t - 6 * t) * (c * c)) by (nonlinear_arith)
        requires
            rx * rx * (c * c) + ry * ry * (c * c) >= s * (t * t) - 2 * ax * c - 2 * ay * c,
            ax <= c * t,
            ay <= c * t,
            s >= (c - 1) * (c - 1) + 1,
            c >= 1,
            c > t,
            t >= 0,
            ax >= 0,
            ay >= 0,
    {
    }
    assert(nsq(rx, ry) >= t * t - 6 * t) by (nonlinear_arith)
        requires
            nsq(rx, ry) * (c * c) >= (t * t - 6 * t) * (c * c),
            c >= 1,
    {
    }
}

/// The clamped speed never exceeds `max`, in norm or per component.
pub proof fn lemma_clamp_le(vx: int, vy: int, px: int, py: int, min: int, max: int)
    requires
        0 <= min <= max,
    ensures
        ({
            let (rx, ry) = clamp_spec(vx, vy, px, py, min, max);
            nsq(rx, ry) <= max * max && iabs(rx) <= max && iabs(ry) <= max
        }),
{
    let s = nsq(vx, vy);
    assert(vx * vx >= 0 && vy * vy >= 0 && px * px >= 0 && py * py >= 0) by (nonlinear_arith);
    assert(min * min <= max * max) by (nonlinear_arith)
        requires
            0 <= min <= max,
    {
    }
    if s > max * max {
        assert(s >= 1) by (nonlinear_arith)
            requires
                s > max * max,
                max >= 0,
        {
        }
        lemma_scale_trunc_le(vx, vy, max);
    } else if s >= min * min {
        assert(iabs(vx) <= max && iabs(vy) <= max) by (nonlinear_arith)
            requires
                vx * vx <= s,
                vy * vy <= s,
                s <= max * max,
                max >= 0,
        {
        }
    } else {
        let (ux, uy) = if s == 0 {
            (px, py)
        } else {
            (vx, vy)
        };
        if nsq(ux, uy) == 0 {
        } else {
            assert(nsq(ux, uy) >= 1);
            lemma_scale_away_ge(ux, uy, min);
            let (wx, wy) = scale_away_spec(ux, uy, min);
            if nsq(wx, wy) > max * max {
                assert(nsq(wx, wy) >= 1) by (nonlinear_arith)
                    requires
                        nsq(wx, wy) > max * max,
                        max >= 0,
                {
                }
                lemma_scale_trunc_le(wx, wy, max);
            } else {
                assert(iabs(wx) <= max && iabs(wy) <= max);
            }
        }
    }
}

/// Once the speed interval is wide enough, the clamped speed also never
/// falls below `min`.
pub proof fn lemma_clamp_ge(vx: int, vy: int, px: int, py: int, min: int, max: int)
    requires
        0 <= min,
        min + 4 <= max,
        8 <= max,
    ensures
        ({
            let (rx, ry) = clamp_spec(vx, vy, px, py, min, max);
            nsq(rx, ry) >= min * min
        }),
{
    let s = nsq(vx, vy);
    assert(vx * vx >= 0 && vy * vy >= 0 && px * px >= 0 && py * py >= 0) by (nonlinear_arith);
    assert(min * min <= max * max - 6 * max) by (nonlinear_arith)
        requires
            0 <= min,
            min + 4 <= max,
            8 <= max,
    {
    }
    if s > max * max {
        lemma_scale_trunc_lower(vx, vy, max);
    } else if s >= min * min {
    } else {
        let (ux, uy) = if s == 0 {
            (px, py)
        } else {
            (vx, vy)
        };
        if nsq(ux, uy) == 0 {
            assert(nsq(min, 0) == min * min);
        } else {
            assert(nsq(ux, uy) >= 1);
            lemma_scale_away_ge(ux, uy, min);
            let (wx, wy) = scale_away_spec(ux, uy, min);
            if nsq(wx, wy) > max * max {
                lemma_scale_trunc_lower(wx, wy, max);
            }
        }
    }
}

/// Computes `scale_trunc_spec` on machine integers.
fn scale_trunc(x: i64, y: i64, t: i64) -> (r: (i64, i64))
    requires
        1 <= nsq(x as int, y as int) < 0x4000_0000_0000_0000,
        -2_000_000_000 <= x <= 2_000_000_000,
        -2_000_000_000 <= y <= 2_000_000_000,
        0 <= t <= 1_000_000,
    ensures
        (r.0 as int, r.1 as int) == scale_trunc_spec(x as int, y as int, t as int),
{
    proof {
        assert(x * x >= 0 && y * y >= 0) by (nonlinear_arith);
        assert(x * x <= 2_000_000_000i64 * 2_000_000_000 && y * y <= 2_000_000_000i64
            * 2_000_000_000) by (nonlinear_arith)
            requires
                -2_000_000_000 <= x <= 2_000_000_000,
                -2_000_000_000 <= y <= 2_000_000_000,
        {
        }
    }
    let s: i64 = x * x + y * y;
    let m: u64 = crate::math::isqrt(s as u64);
    proof {
        lemma_sqrt_floor(s as int);
    }
    let c: i64 = if (m * m) as i64 == s {
        m as i64
    } else {
        (m as i64) + 1
    };
    proof {
        assert(c == sqrt_ceil(s as int));
        lemma_sqrt_ceil(s as int);
        assert(x * t <= 2_000_000_000i64 * 1_000_000 && x * t >= -2_000_000_000i64 * 1_000_000
            && y * t <= 2_000_000_000i64 * 1_000_000 && y * t >= -2_000_000_000i64 * 1_000_000)
            by (nonlinear_arith)
            requires
                -2_000_000_000 <= x <= 2_000_000_000,
                -2_000_000_000 <= y <= 2_000_000_000,
                0 <= t <= 1_000_000,
        {
        }
    }
    (crate::math::div_q(x * t, c), crate::math::div_q(y * t, c))
}

/// Computes `scale_away_spec` on machine integers.
pub(crate) fn scale_away(x: i64, y: i64, t: i64) -> (r: (i64, i64))
    requires
        1 <= nsq(x as int, y as int) < 0x4000_0000_0000_0000,
        -2_000_000_000 <= x <= 2_000_000_000,
        -2_000_000_000 <= y <= 2_000_000_000,
        0 <= t <= 1_000_000,
    ensures
        (r.0 as int, r.1 as int) == scale_away_spec(x as int, y as int, t as int),
{
    proof {
        assert(x * x >= 0 && y * y >= 0) by (nonlinear_arith);
        assert(x * x <= 2_000_000_000i64 * 2_000_000_000 && y * y <= 2_000_000_000i64
            * 2_000_000_000) by (nonlinear_arith)
            requires
                -2_000_000_000 <= x <= 2_000_000_000,
                -2_000_000_000 <= y <= 2_000_000_000,
        {
        }
    }
    let s: i64 = x * x + y * y;
    let m: u64 = crate::math::isqrt(s as u64);
    proof {
        lemma_sqrt_floor(s as int);
        if m == 0 {
            assert(s < (0 + 1) * (0 + 1));
        }
        assert(x * t <= 2_000_000_000i64 * 1_000_000 && x * t >= -2_000_000_000i64 * 1_000_000
            && y * t <= 2_000_000_000i64 * 1_000_000 && y * t >= -2_000_000_000i64 * 1_000_000)
            by (nonlinear_arith)
            requires
                -2_000_000_000 <= x <= 2_000_000_000,
                -2_000_000_000 <= y <= 2_000_000_000,
                0 <= t <= 1_000_000,
        {
        }
    }
    (crate::math::div_q_away(x * t, m as i64), crate::math::div_q_away(y * t, m as i64))
}

/// Computes `clamp_spec` on machine integers: clamps the steered velocity
/// `(vx, vy)` into the speed interval, falling back to the pre-steering
/// velocity `prev` for a heading when the steered velocity is zero.
pub fn clamp_velocity(vx: i64, vy: i64, prev: Velocity, min: i64, max: i64) -> (r: Velocity)
    requires
        -1_500_000_000 <= vx <= 1_500_000_000,
        -1_500_000_000 <= vy <= 1_500_000_000,
        prev.speed_sq() <= crate::config::VEL_SQ_CAP,
        0 <= min <= max <= crate::config::MAX_SPEED_CAP,
    ensures
        (r.x as int, r.y as int) == clamp_spec(
            vx as int,
            vy as int,
            prev.x as int,
            prev.y as int,
            min as int,
            max as int,
        ),
        r.speed_sq() <= max * max,
        iabs(r.x as int) <= max,
        iabs(r.y as int) <= max,
{
    proof {
        lemma_clamp_le(vx as int, vy as int, prev.x as int, prev.y as int, min as int, max as int);
        assert(vx * vx >= 0 && vy * vy >= 0) by (nonlinear_arith);
        assert(vx * vx <= 1_500_000_000i64 * 1_500_000_000 && vy * vy <= 1_500_000_000i64
            * 1_500_000_000) by (nonlinear_arith)
            requires
                -1_500_000_000 <= vx <= 1_500_000_000,
                -1_500_000_000 <= vy <= 1_500_000_000,
        {
        }
        assert(max * max <= 1_000_000i64 * 1_000_000 && min * min <= 1_000_000i64 * 1_000_000)
            by (nonlinear_arith)
            requires
                0 <= min <= 1_000_000,
                0 <= max <= 1_000_000,
        {
        }
    }
    let s: i64 = vx * vx + vy * vy;
    if s > max * max {
        let (rx, ry) = scale_trunc(vx, vy, max);
        Velocity { x: rx, y: ry }
    } else if s >= min * min {
        Velocity { x: vx, y: vy }
    } else {
        let (ux, uy): (i64, i64) = if s == 0 {
            (prev.x, prev.y)
        } else {
            (vx, vy)
        };
        proof {
            assert(prev.x * prev.x >= 0 && prev.y * prev.y >= 0) by (nonlinear_arith);
            assert(-2_000_000 <= prev.x <= 2_000_000 && -2_000_000 <= prev.y <= 2_000_000)
                by (nonlinear_arith)
                requires
                    prev.x * prev.x + prev.y * prev.y <= 4_000_000_000_000,
                    prev.x * prev.x >= 0,
                    prev.y * prev.y >= 0,
            {
            }
            assert(ux * ux >= 0 && uy * uy >= 0) by (nonlinear_arith);
            assert(ux * ux <= 1_500_000_000i64 * 1_500_000_000 && uy * uy <= 1_500_000_000i64
                * 1_500_000_000) by (nonlinear_arith)
                requires
                    -1_500_000_000 <= ux <= 1_500_000_000,
                    -1_500_000_000 <= uy <= 1_500_000_000,
            {
            }
        }
        let su: i64 = ux * ux + uy * uy;
        if su == 0 {
            Velocity { x: min, y: 0 }
        } else {
            let (wx, wy) = scale_away(ux, uy, min);
            proof {
                lemma_scale_away_ge(ux as int, uy as int, min as int);
                assert(wx * wx >= 0 && wy * wy >= 0) by (nonlinear_arith);
                assert(wx * wx <= 1_000_000i64 * 1_000_000 && wy * wy <= 1_000_000i64 * 1_000_000)
                    by (nonlinear_arith)
                    requires
                        iabs(wx as int) <= min,
                        iabs(wy as int) <= min,
                        0 <= min <= 1_000_000,
                {
                }
            }
            let sw: i64 = wx * wx + wy * wy;
            if sw > max * max {
                let (rx, ry) = scale_trunc(wx, wy, max);
                Velocity { x: rx, y: ry }
            } else {
                Velocity { x: wx, y: wy }
            }
        }
    }
}

} // verus!
