//! The per-tick model: flock-wide aggregates over a snapshot, the
//! steering contribution of the three rules, and the full effect of one
//! tick on one agent.

use vstd::prelude::*;
use crate::clamp::clamp_spec;
use crate::components::nsq;
use crate::config::{half, valid_config, FlockParams, WinSize, MAX_AGENTS, MAX_DT, VEL_SQ_CAP};
use crate::math::{div_trunc, iabs, lemma_div_trunc};
use crate::store::{agent_ok, AgentModel};
use crate::sums::{lemma_sum_by_bound, lemma_sum_by_remove, sum_by};

verus! {

/// Weight reading an agent's x position.
pub open spec fn f_px() -> spec_fn(AgentModel) -> int {
    |a: AgentModel| a.px
}

/// Weight reading an agent's y position.
pub open spec fn f_py() -> spec_fn(AgentModel) -> int {
    |a: AgentModel| a.py
}

/// Weight reading an agent's x velocity.
pub open spec fn f_vx() -> spec_fn(AgentModel) -> int {
    |a: AgentModel| a.vx
}

/// Weight reading an agent's y velocity.
pub open spec fn f_vy() -> spec_fn(AgentModel) -> int {
    |a: AgentModel| a.vy
}

/// What a neighbour `b` adds to the separation push on `a` along x: its
/// offset if it stands strictly closer than `d`, nothing otherwise.
/// `a` itself adds nothing, being at distance zero offset zero.
pub open spec fn sep_term_x(b: AgentModel, a: AgentModel, d: int) -> int {
    if nsq(b.px - a.px, b.py - a.py) < d * d {
        b.px - a.px
    } else {
        0
    }
}

/// The y analogue of `sep_term_x`.
pub open spec fn sep_term_y(b: AgentModel, a: AgentModel, d: int) -> int {
    if nsq(b.px - a.px, b.py - a.py) < d * d {
        b.py - a.py
    } else {
        0
    }
}

/// Weight of one neighbour in the x separation sum for `a`.
pub open spec fn f_sep_x(a: AgentModel, d: int) -> spec_fn(AgentModel) -> int {
    |b: AgentModel| sep_term_x(b, a, d)
}

/// Weight of one neighbour in the y separation sum for `a`.
pub open spec fn f_sep_y(a: AgentModel, d: int) -> spec_fn(AgentModel) -> int {
    |b: AgentModel| sep_term_y(b, a, d)
}

/// Flock-wide sum of x positions.
pub open spec fn sum_px(s: Seq<AgentModel>) -> int {
    sum_by(s, f_px())
}

/// Flock-wide sum of y positions.
pub open spec fn sum_py(s: Seq<AgentModel>) -> int {
    sum_by(s, f_py())
}

/// Flock-wide sum of x velocities.
pub open spec fn sum_vx(s: Seq<AgentModel>) -> int {
    sum_by(s, f_vx())
}

/// Flock-wide sum of y velocities.
pub open spec fn sum_vy(s: Seq<AgentModel>) -> int {
    sum_by(s, f_vy())
}

/// Separation push on `a` along x: the negated sum of offsets of all
/// agents closer than `d`.
pub open spec fn sep_push_x(s: Seq<AgentModel>, a: AgentModel, d: int) -> int {
    -sum_by(s, f_sep_x(a, d))
}

/// Separation push on `a` along y.
pub open spec fn sep_push_y(s: Seq<AgentModel>, a: AgentModel, d: int) -> int {
    -sum_by(s, f_sep_y(a, d))
}

/// Steering delta for agent `i` along x: cohesion toward the average
/// position of the others, separation away from close neighbours, and
/// alignment toward the average velocity of the others; only the
/// alignment term is scaled by the tick's elapsed time.
pub open spec fn steer_x(s: Seq<AgentModel>, i: int, p: FlockParams, dt: int) -> int
    recommends
        2 <= s.len(),
        0 <= i < s.len(),
{
    let a = s[i];
    let n = s.len() as int;
    let avg_px = div_trunc(sum_px(s) - a.px, n - 1);
    let r1 = div_trunc(p.coherence_weight * (avg_px - a.px), 100);
    let r2 = div_trunc(p.separation_weight * sep_push_x(s, a, p.separation_distance as int), 100);
    let avg_vx = div_trunc(sum_vx(s) - a.vx, n - 1);
    let r3 = div_trunc(p.alignment_weight * (avg_vx - a.vx), 100);
    r1 + r2 + div_trunc(r3 * dt, 1000)
}

/// Steering delta for agent `i` along y.
pub open spec fn steer_y(s: Seq<AgentModel>, i: int, p: FlockParams, dt: int) -> int
    recommends
        2 <= s.len(),
        0 <= i < s.len(),
{
    let a = s[i];
    let n = s.len() as int;
    let avg_py = div_trunc(sum_py(s) - a.py, n - 1);
    let r1 = div_trunc(p.coherence_weight * (avg_py - a.py), 100);
    let r2 = div_trunc(p.separation_weight * sep_push_y(s, a, p.separation_distance as int), 100);
    let avg_vy = div_trunc(sum_vy(s) - a.vy, n - 1);
    let r3 = div_trunc(p.alignment_weight * (avg_vy - a.vy), 100);
    r1 + r2 + div_trunc(r3 * dt, 1000)
}

/// Toroidal wrap of one coordinate: a point beyond either edge of
/// `[-h, h]` teleports to the opposite edge; anything inside is kept.
pub open spec fn wrap_spec(x: int, h: int) -> int {
    if x > h {
        -h
    } else if x < -h {
        h
    } else {
        x
    }
}

/// The full effect of one tick on agent `i`, computed from the snapshot
/// `s` alone: steering and clamping when the agent has flockmates, pure
/// integration when it does not, then position advance and wrap.
pub open spec fn tick_agent(
    s: Seq<AgentModel>,
    i: int,
    b: WinSize,
    p: FlockParams,
    dt: int,
) -> AgentModel
    recommends
        0 <= i < s.len(),
{
    let a = s[i];
    let (nvx, nvy) = if s.len() <= 1 {
        (a.vx, a.vy)
    } else {
        clamp_spec(
            a.vx + steer_x(s, i, p, dt),
            a.vy + steer_y(s, i, p, dt),
            a.vx,
            a.vy,
            p.min_speed as int,
            p.max_speed as int,
        )
    };
    AgentModel {
        px: wrap_spec(a.px + div_trunc(nvx * dt, 1000), half(b.w as int)),
        py: wrap_spec(a.py + div_trunc(nvy * dt, 1000), half(b.h as int)),
        vx: nvx,
        vy: nvy,
    }
}

/// Per-component velocity bound every well-formed agent satisfies.
pub proof fn lemma_vel_component_bound(a: AgentModel, b: WinSize)
    requires
        agent_ok(a, b),
    ensures
        iabs(a.vx) <= 2_000_000,
        iabs(a.vy) <= 2_000_000,
{
    assert(a.vx * a.vx >= 0 && a.vy * a.vy >= 0) by (nonlinear_arith);
    assert(iabs(a.vx) <= 2_000_000 && iabs(a.vy) <= 2_000_000) by (nonlinear_arith)
        requires
            a.vx * a.vx <= 4_000_000_000_000,
            a.vy * a.vy <= 4_000_000_000_000,
    {
    }
}

/// The steering delta of a well-formed snapshot is small enough that the
/// steered velocity fits comfortably in 64 bits.
pub proof fn lemma_steer_bounds(s: Seq<AgentModel>, i: int, b: WinSize, p: FlockParams, dt: int)
    requires
        valid_config(b, p),
        s.len() <= MAX_AGENTS,
        2 <= s.len(),
        0 <= i < s.len(),
        forall|j: int| 0 <= j < s.len() ==> agent_ok(#[trigger] s[j], b),
        0 <= dt <= MAX_DT,
    ensures
        iabs(steer_x(s, i, p, dt)) <= 1_100_000_000,
        iabs(steer_y(s, i, p, dt)) <= 1_100_000_000,
{
    let a = s[i];
    let n = s.len() as int;
    let d = p.separation_distance as int;
    assert(half(b.w as int) <= 500_000 && half(b.h as int) <= 500_000);
    assert(forall|j: int| 0 <= j < s.len() ==> iabs(#[trigger] s[j].vx) <= 2_000_000 && iabs(
        s[j].vy,
    ) <= 2_000_000) by {
        assert forall|j: int| 0 <= j < s.len() implies iabs(#[trigger] s[j].vx) <= 2_000_000
            && iabs(s[j].vy) <= 2_000_000 by {
            lemma_vel_component_bound(s[j], b);
        }
    }
    // the sums over the other agents
    lemma_sum_by_remove(s, f_px(), i);
    lemma_sum_by_remove(s, f_py(), i);
    lemma_sum_by_remove(s, f_vx(), i);
    lemma_sum_by_remove(s, f_vy(), i);
    let rest = s.remove(i);
    assert(forall|k: int| 0 <= k < rest.len() ==> #[trigger] rest[k] == s[k] || rest[k] == s[k
        + 1]);
    assert(forall|k: int|
        0 <= k < rest.len() ==> -500_000 <= #[trigger] f_px()(rest[k]) <= 500_000);
    assert(forall|k: int|
        0 <= k < rest.len() ==> -500_000 <= #[trigger] f_py()(rest[k]) <= 500_000);
    assert(forall|k: int|
        0 <= k < rest.len() ==> -2_000_000 <= #[trigger] f_vx()(rest[k]) <= 2_000_000);
    assert(forall|k: int|
        0 <= k < rest.len() ==> -2_000_000 <= #[trigger] f_vy()(rest[k]) <= 2_000_000);
    lemma_sum_by_bound(rest, f_px(), 500_000);
    lemma_sum_by_bound(rest, f_py(), 500_000);
    lemma_sum_by_bound(rest, f_vx(), 2_000_000);
    lemma_sum_by_bound(rest, f_vy(), 2_000_000);
    assert((n - 1) * 500_000 <= 1023 * 500_000 && (n - 1) * 2_000_000 <= 1023 * 2_000_000)
        by (nonlinear_arith)
        requires
            n <= 1024,
    {
    }
    // separation terms are bounded by the width of the domain
    assert(forall|k: int|
        0 <= k < s.len() ==> -1_000_000 <= #[trigger] f_sep_x(a, d)(s[k]) <= 1_000_000);
    assert(forall|k: int|
        0 <= k < s.len() ==> -1_000_000 <= #[trigger] f_sep_y(a, d)(s[k]) <= 1_000_000);
    lemma_sum_by_bound(s, f_sep_x(a, d), 1_000_000);
    lemma_sum_by_bound(s, f_sep_y(a, d), 1_000_000);
    assert(n * 1_000_000 <= 1024 * 1_000_000) by (nonlinear_arith)
        requires
            n <= 1024,
    {
    }
    lemma_steer_axis(
        sum_px(s) - a.px,
        a.px,
        sum_vx(s) - a.vx,
        a.vx,
        sep_push_x(s, a, d),
        n,
        p,
        dt,
    );
    lemma_steer_axis(
        sum_py(s) - a.py,
        a.py,
        sum_vy(s) - a.vy,
        a.vy,
        sep_push_y(s, a, d),
        n,
        p,
        dt,
    );
}

/// Bound on one axis of the steering formula, given bounds on its inputs.
proof fn lemma_steer_axis(
    rest_p: int,
    own_p: int,
    rest_v: int,
    own_v: int,
    push: int,
    n: int,
    p: FlockParams,
    dt: int,
)
    requires
        2 <= n,
        iabs(rest_p) <= (n - 1) * 500_000,
        (n - 1) * 500_000 <= 1023 * 500_000,
        iabs(own_p) <= 500_000,
        iabs(rest_v) <= (n - 1) * 2_000_000,
        (n - 1) * 2_000_000 <= 1023 * 2_000_000,
        iabs(own_v) <= 2_000_000,
        iabs(push) <= 1024 * 1_000_000,
        0 <= p.coherence_weight <= 100,
        0 <= p.separation_weight <= 100,
        0 <= p.alignment_weight <= 100,
        0 <= dt <= MAX_DT,
    ensures
        ({
            let avg_p = div_trunc(rest_p, n - 1);
            let r1 = div_trunc(p.coherence_weight * (avg_p - own_p), 100);
            let r2 = div_trunc(p.separation_weight * push, 100);
            let avg_v = div_trunc(rest_v, n - 1);
            let r3 = div_trunc(p.alignment_weight * (avg_v - own_v), 100);
            iabs(r1 + r2 + div_trunc(r3 * dt, 1000)) <= 1_100_000_000
        }),
{
    let avg_p = div_trunc(rest_p, n - 1);
    lemma_div_trunc(rest_p, n - 1);
    assert(iabs(avg_p) <= 500_000) by (nonlinear_arith)
        requires
            iabs(avg_p) * (n - 1) <= iabs(rest_p),
            iabs(rest_p) <= (n - 1) * 500_000,
            n >= 2,
            iabs(avg_p) >= 0,
    {
    }
    let c1 = p.coherence_weight * (avg_p - own_p);
    assert(iabs(c1) <= 100 * 1_000_000) by (nonlinear_arith)
        requires
            iabs(avg_p) <= 500_000,
            iabs(own_p) <= 500_000,
            0 <= p.coherence_weight <= 100,
            c1 == p.coherence_weight * (avg_p - own_p),
    {
    }
    let r1 = div_trunc(c1, 100);
    lemma_div_trunc(c1, 100);
    let c2 = p.separation_weight * push;
    assert(iabs(c2) <= 100 * (1024 * 1_000_000)) by (nonlinear_arith)
        requires
            iabs(push) <= 1024 * 1_000_000,
            0 <= p.separation_weight <= 100,
            c2 == p.separation_weight * push,
    {
    }
    let r2 = div_trunc(c2, 100);
    lemma_div_trunc(c2, 100);
    let avg_v = div_trunc(rest_v, n - 1);
    lemma_div_trunc(rest_v, n - 1);
    assert(iabs(avg_v) <= 2_000_000) by (nonlinear_arith)
        requires
            iabs(avg_v) * (n - 1) <= iabs(rest_v),
            iabs(rest_v) <= (n - 1) * 2_000_000,
            n >= 2,
            iabs(avg_v) >= 0,
    {
    }
    let c3 = p.alignment_weight * (avg_v - own_v);
    assert(iabs(c3) <= 100 * 4_000_000) by (nonlinear_arith)
        requires
            iabs(avg_v) <= 2_000_000,
            iabs(own_v) <= 2_000_000,
            0 <= p.alignment_weight <= 100,
            c3 == p.alignment_weight * (avg_v - own_v),
    {
    }
    let r3 = div_trunc(c3, 100);
    lemma_div_trunc(c3, 100);
    assert(iabs(r3) <= 4_000_000) by (nonlinear_arith)
        requires
            iabs(r3) * 100 <= iabs(c3),
            iabs(c3) <= 100 * 4_000_000,
            iabs(r3) >= 0,
    {
    }
    let c4 = r3 * dt;
    assert(iabs(c4) <= 40_000_000_000) by (nonlinear_arith)
        requires
            iabs(r3) <= 4_000_000,
            0 <= dt <= 10_000,
            c4 == r3 * dt,
    {
    }
    let r4 = div_trunc(c4, 1000);
    lemma_div_trunc(c4, 1000);
    assert(iabs(r4) <= 40_000_000) by (nonlinear_arith)
        requires
            iabs(r4) * 1000 <= iabs(c4),
            iabs(c4) <= 40_000_000_000,
            iabs(r4) >= 0,
    {
    }
    assert(iabs(r1) <= 1_000_000) by (nonlinear_arith)
        requires
            iabs(r1) * 100 <= iabs(c1),
            iabs(c1) <= 100 * 1_000_000,
            iabs(r1) >= 0,
    {
    }
    assert(iabs(r2) <= 1_024_000_000) by (nonlinear_arith)
        requires
            iabs(r2) * 100 <= iabs(c2),
            iabs(c2) <= 100 * (1024 * 1_000_000),
            iabs(r2) >= 0,
    {
    }
}

} // verus!
