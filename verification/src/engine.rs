//! The engine's entry points: spawn initialization, the tick, and the
//! heading controller.

use vstd::prelude::*;
use crate::clamp::{clamp_spec, clamp_velocity, lemma_scale_away_ge, scale_away};
use crate::components::{nsq, Velocity};
use crate::config::{
    caps_config, config_ok, half, half_dim, spec_ok, valid_config, FlockParams, SimError, WinSize,
    MAX_AGENTS, MAX_DT, VEL_SQ_CAP,
};
use crate::flock::{
    f_px, f_py, f_sep_x, f_sep_y, f_vx, f_vy, lemma_steer_bounds, lemma_vel_component_bound,
    sep_push_x, sep_push_y, steer_x, steer_y, sum_px, sum_py, sum_vx, sum_vy, tick_agent,
    wrap_spec,
};
use crate::math::{div_q, div_trunc, iabs, lemma_abs_mul, lemma_div_trunc};
use crate::rng::{rng_from_seed, rng_range};
use crate::store::{agent_ok, models, Agent, AgentModel, AgentStore};
use crate::sums::{lemma_sum_by_take_step, sum_by};

verus! {

/// One coordinate after the toroidal wrap into `[-h, h]`: a point past
/// either edge teleports to the opposite edge.
pub fn wrap_coord(x: i64, h: i64) -> (r: i64)
    requires
        0 <= h,
    ensures
        r == wrap_spec(x as int, h as int),
        -h <= r <= h,
{
    if x > h {
        -h
    } else if x < -h {
        h
    } else {
        x
    }
}

/// What initialization guarantees of each spawned agent: a position in
/// the bounded rectangle and a non-zero velocity of roughly `base_speed`
/// (at least `base_speed` in norm, at most `base_speed` per component).
pub open spec fn spawn_ok(a: AgentModel, b: WinSize, p: FlockParams) -> bool {
    &&& iabs(a.px) <= half(b.w as int)
    &&& iabs(a.py) <= half(b.h as int)
    &&& p.base_speed * p.base_speed <= nsq(a.vx, a.vy)
    &&& iabs(a.vx) <= p.base_speed
    &&& iabs(a.vy) <= p.base_speed
}

/// Populates a store with `agent_count` agents at positions sampled
/// uniformly from the bounded rectangle, headings sampled uniformly (by
/// rejection from the unit disc) and speeds of roughly `base_speed`.
/// Rejects invalid configurations instead of running with them.
pub fn initialize(
    bounds: &WinSize,
    params: &FlockParams,
    agent_count: usize,
    rng_seed: u64,
) -> (r: Result<AgentStore, SimError>)
    requires
        caps_config(*bounds, *params),
        agent_count <= MAX_AGENTS,
    ensures
        !spec_ok(*bounds, *params) ==> r == Err::<AgentStore, SimError>(
            SimError::InvalidConfiguration,
        ),
        spec_ok(*bounds, *params) ==> (r matches Ok(st) && st@.len() == agent_count && st.wf(
            *bounds,
        ) && forall|i: int| 0 <= i < agent_count ==> spawn_ok(#[trigger] st@[i], *bounds, *params)),
{
    if !config_ok(bounds, params) {
        return Err(SimError::InvalidConfiguration);
    }
    let half_w = half_dim(bounds.w);
    let half_h = half_dim(bounds.h);
    let mut rng = rng_from_seed(rng_seed);
    let mut st = AgentStore::new();
    let mut i: usize = 0;
    while i < agent_count
        invariant
            i <= agent_count,
            agent_count <= MAX_AGENTS,
            st@.len() == i as int,
            half_w == half(bounds.w as int),
            half_h == half(bounds.h as int),
            0 <= half_w,
            0 <= half_h,
            caps_config(*bounds, *params),
            forall|k: int| 0 <= k < i ==> spawn_ok(#[trigger] st@[k], *bounds, *params),
            forall|k: int| 0 <= k < i ==> agent_ok(#[trigger] st@[k], *bounds),
        decreases agent_count - i,
    {
        let x = rng_range(&mut rng, -half_w, half_w);
        let y = rng_range(&mut rng, -half_h, half_h);
        let mut dx: i64 = 1000;
        let mut dy: i64 = 0;
        let mut tries: usize = 0;
        while tries < 32
            invariant
                -1000 <= dx <= 1000,
                -1000 <= dy <= 1000,
                1 <= nsq(dx as int, dy as int) <= 1_000_000,
            decreases 32 - tries,
        {
            let cx = rng_range(&mut rng, -1000, 1000);
            let cy = rng_range(&mut rng, -1000, 1000);
            proof {
                lemma_abs_mul(cx as int, 1000, cx as int, 1000);
                lemma_abs_mul(cy as int, 1000, cy as int, 1000);
            }
            let q = cx * cx + cy * cy;
            if q >= 1 && q <= 1_000_000 {
                dx = cx;
                dy = cy;
                tries = 32;
            } else {
                tries = tries + 1;
            }
        }
        let (vx, vy) = scale_away(dx, dy, params.base_speed);
        proof {
            lemma_scale_away_ge(dx as int, dy as int, params.base_speed as int);
            assert(nsq(vx as int, vy as int) <= VEL_SQ_CAP) by (nonlinear_arith)
                requires
                    iabs(vx as int) <= params.base_speed,
                    iabs(vy as int) <= params.base_speed,
                    params.base_speed <= 1_000_000,
            {
            }
        }
        st.push(Agent { x, y, vel: Velocity { x: vx, y: vy } });
        i = i + 1;
    }
    Ok(st)
}

/// Flock-wide sums of positions and velocities over one snapshot.
#[verifier::spinoff_prover]
fn flock_sums(agents: &Vec<Agent>, bounds: &WinSize) -> (r: (i64, i64, i64, i64))
    requires
        agents@.len() <= MAX_AGENTS,
        forall|j: int| 0 <= j < agents@.len() ==> agent_ok(#[trigger] models(agents@)[j], *bounds),
        bounds.w <= 1_000_000,
        bounds.h <= 1_000_000,
    ensures
        r.0 == sum_px(models(agents@)),
        r.1 == sum_py(models(agents@)),
        r.2 == sum_vx(models(agents@)),
        r.3 == sum_vy(models(agents@)),
        iabs(r.0 as int) <= 1024 * 500_000,
        iabs(r.1 as int) <= 1024 * 500_000,
        iabs(r.2 as int) <= 1024 * 2_000_000,
        iabs(r.3 as int) <= 1024 * 2_000_000,
{
    let ghost snap = models(agents@);
    let n = agents.len();
    let mut spx: i64 = 0;
    let mut spy: i64 = 0;
    let mut svx: i64 = 0;
    let mut svy: i64 = 0;
    let mut k: usize = 0;
    while k < n
        invariant
            k <= n,
            n == snap.len(),
            snap == models(agents@),
            snap.len() <= MAX_AGENTS,
            forall|j: int| 0 <= j < snap.len() ==> agent_ok(#[trigger] snap[j], *bounds),
            bounds.w <= 1_000_000,
            bounds.h <= 1_000_000,
            spx == sum_by(snap.take(k as int), f_px()),
            spy == sum_by(snap.take(k as int), f_py()),
            svx == sum_by(snap.take(k as int), f_vx()),
            svy == sum_by(snap.take(k as int), f_vy()),
            iabs(spx as int) <= k as int * 500_000,
            iabs(spy as int) <= k as int * 500_000,
            iabs(svx as int) <= k as int * 2_000_000,
            iabs(svy as int) <= k as int * 2_000_000,
        decreases n - k,
    {
        let a = agents[k];
        proof {
            assert(a.model() == snap[k as int]);
            lemma_vel_component_bound(snap[k as int], *bounds);
            lemma_sum_by_take_step(snap, f_px(), k as int);
            lemma_sum_by_take_step(snap, f_py(), k as int);
            lemma_sum_by_take_step(snap, f_vx(), k as int);
            lemma_sum_by_take_step(snap, f_vy(), k as int);
        }
        spx = spx + a.x;
        spy = spy + a.y;
        svx = svx + a.vel.x;
        svy = svy + a.vel.y;
        k = k + 1;
    }
    proof {
        assert(snap.take(n as int) =~= snap);
    }
    (spx, spy, svx, svy)
}

/// Separation scan for agent `i`: summed offsets of all agents standing
/// strictly closer than `d`.
#[verifier::spinoff_prover]
fn sep_scan(agents: &Vec<Agent>, i: usize, d: i64, bounds: &WinSize) -> (r: (i64, i64))
    requires
        agents@.len() <= MAX_AGENTS,
        i < agents@.len(),
        forall|j: int| 0 <= j < agents@.len() ==> agent_ok(#[trigger] models(agents@)[j], *bounds),
        bounds.w <= 1_000_000,
        bounds.h <= 1_000_000,
        0 <= d <= 2_000_000,
    ensures
        r.0 == sum_by(models(agents@), f_sep_x(models(agents@)[i as int], d as int)),
        r.1 == sum_by(models(agents@), f_sep_y(models(agents@)[i as int], d as int)),
        iabs(r.0 as int) <= 1024 * 1_000_000,
        iabs(r.1 as int) <= 1024 * 1_000_000,
{
    let ghost snap = models(agents@);
    let ghost am = snap[i as int];
    let ghost d_int = d as int;
    let n = agents.len();
    let a = agents[i];
    let mut accx: i64 = 0;
    let mut accy: i64 = 0;
    let mut j: usize = 0;
    while j < n
        invariant
            j <= n,
            n == snap.len(),
            snap == models(agents@),
            snap.len() <= MAX_AGENTS,
            forall|q: int| 0 <= q < snap.len() ==> agent_ok(#[trigger] snap[q], *bounds),
            bounds.w <= 1_000_000,
            bounds.h <= 1_000_000,
            i < n,
            a == agents@[i as int],
            a.model() == am,
            am == snap[i as int],
            0 <= d <= 2_000_000,
            d_int == d as int,
            accx == sum_by(snap.take(j as int), f_sep_x(am, d_int)),
            accy == sum_by(snap.take(j as int), f_sep_y(am, d_int)),
            iabs(accx as int) <= j as int * 1_000_000,
            iabs(accy as int) <= j as int * 1_000_000,
        decreases n - j,
    {
        let o = agents[j];
        proof {
            assert(o.model() == snap[j as int]);
            lemma_sum_by_take_step(snap, f_sep_x(am, d_int), j as int);
            lemma_sum_by_take_step(snap, f_sep_y(am, d_int), j as int);
        }
        let ox = o.x - a.x;
        let oy = o.y - a.y;
        proof {
            lemma_abs_mul(ox as int, 1_000_000, ox as int, 1_000_000);
            lemma_abs_mul(oy as int, 1_000_000, oy as int, 1_000_000);
            lemma_abs_mul(d as int, 2_000_000, d as int, 2_000_000);
        }
        let dist2 = ox * ox + oy * oy;
        if dist2 < d * d {
            accx = accx + ox;
            accy = accy + oy;
        }
        j = j + 1;
    }
    proof {
        assert(snap.take(n as int) =~= snap);
    }
    (accx, accy)
}

/// One agent's steered and clamped velocity for this tick, synthesized
/// from the snapshot alone.
#[verifier::rlimit(30)]
#[verifier::spinoff_prover]
fn steered_velocity(
    agents: &Vec<Agent>,
    i: usize,
    sums: (i64, i64, i64, i64),
    bounds: &WinSize,
    params: &FlockParams,
    dt: i64,
) -> (nv: Velocity)
    requires
        2 <= agents@.len() <= MAX_AGENTS,
        i < agents@.len(),
        forall|j: int| 0 <= j < agents@.len() ==> agent_ok(#[trigger] models(agents@)[j], *bounds),
        valid_config(*bounds, *params),
        0 <= dt <= MAX_DT,
        sums.0 == sum_px(models(agents@)),
        sums.1 == sum_py(models(agents@)),
        sums.2 == sum_vx(models(agents@)),
        sums.3 == sum_vy(models(agents@)),
        iabs(sums.0 as int) <= 1024 * 500_000,
        iabs(sums.1 as int) <= 1024 * 500_000,
        iabs(sums.2 as int) <= 1024 * 2_000_000,
        iabs(sums.3 as int) <= 1024 * 2_000_000,
    ensures
        ({
            let snap = models(agents@);
            (nv.x as int, nv.y as int) == clamp_spec(
                snap[i as int].vx + steer_x(snap, i as int, *params, dt as int),
                snap[i as int].vy + steer_y(snap, i as int, *params, dt as int),
                snap[i as int].vx,
                snap[i as int].vy,
                params.min_speed as int,
                params.max_speed as int,
            )
        }),
        nv.speed_sq() <= params.max_speed * params.max_speed,
        iabs(nv.x as int) <= params.max_speed,
        iabs(nv.y as int) <= params.max_speed,
{
    let ghost snap = models(agents@);
    let n = agents.len();
    let a = agents[i];
    proof {
        assert(a.model() == snap[i as int]);
        lemma_vel_component_bound(snap[i as int], *bounds);
    }
    let n1: i64 = (n as i64) - 1;
    // cohesion: toward the average position of the others
    let avg_px = div_q(sums.0 - a.x, n1);
    let avg_py = div_q(sums.1 - a.y, n1);
    proof {
        lemma_abs_mul(params.coherence_weight as int, 100, (avg_px - a.x) as int, 600_000_000);
        lemma_abs_mul(params.coherence_weight as int, 100, (avg_py - a.y) as int, 600_000_000);
    }
    let r1x = div_q(params.coherence_weight * (avg_px - a.x), 100);
    let r1y = div_q(params.coherence_weight * (avg_py - a.y), 100);
    // separation: away from close neighbours
    let (accx, accy) = sep_scan(agents, i, params.separation_distance, bounds);
    proof {
        lemma_abs_mul(params.separation_weight as int, 100, (-accx) as int, 1_024_000_000);
        lemma_abs_mul(params.separation_weight as int, 100, (-accy) as int, 1_024_000_000);
    }
    let r2x = div_q(params.separation_weight * (-accx), 100);
    let r2y = div_q(params.separation_weight * (-accy), 100);
    // alignment: toward the average velocity of the others, time-scaled
    let avg_vx = div_q(sums.2 - a.vel.x, n1);
    let avg_vy = div_q(sums.3 - a.vel.y, n1);
    proof {
        lemma_abs_mul(params.alignment_weight as int, 100, (avg_vx - a.vel.x) as int,
            2_100_000_000);
        lemma_abs_mul(params.alignment_weight as int, 100, (avg_vy - a.vel.y) as int,
            2_100_000_000);
    }
    let r3x = div_q(params.alignment_weight * (avg_vx - a.vel.x), 100);
    let r3y = div_q(params.alignment_weight * (avg_vy - a.vel.y), 100);
    proof {
        lemma_abs_mul(r3x as int, 210_000_000_000, dt as int, 10_000);
        lemma_abs_mul(r3y as int, 210_000_000_000, dt as int, 10_000);
    }
    let r4x = div_q(r3x * dt, 1000);
    let r4y = div_q(r3y * dt, 1000);
    let sx = r1x + r2x + r4x;
    let sy = r1y + r2y + r4y;
    proof {
        assert(sep_push_x(snap, snap[i as int], params.separation_distance as int) == (
        -accx) as int);
        assert(sep_push_y(snap, snap[i as int], params.separation_distance as int) == (
        -accy) as int);
        assert(sx == steer_x(snap, i as int, *params, dt as int));
        assert(sy == steer_y(snap, i as int, *params, dt as int));
        lemma_steer_bounds(snap, i as int, *bounds, *params, dt as int);
    }
    let stx = a.vel.x + sx;
    let sty = a.vel.y + sy;
    clamp_velocity(stx, sty, a.vel, params.min_speed, params.max_speed)
}

/// Advances every agent by one tick of `dt` milliseconds: aggregates are
/// computed from a consistent snapshot of the store, each agent's
/// steering is synthesized from that snapshot alone, and the new
/// velocities and positions are committed together at the end, so no
/// agent's update can observe another agent's partially updated state.
/// An agent without flockmates integrates its unchanged velocity, with
/// no clamping.
#[verifier::rlimit(30)]
#[verifier::spinoff_prover]
pub fn tick(store: &mut AgentStore, bounds: &WinSize, params: &FlockParams, dt: i64)
    requires
        old(store).wf(*bounds),
        valid_config(*bounds, *params),
        0 <= dt <= MAX_DT,
    ensures
        final(store)@.len() == old(store)@.len(),
        forall|i: int|
            0 <= i < old(store)@.len() ==> final(store)@[i] == tick_agent(
                old(store)@,
                i,
                *bounds,
                *params,
                dt as int,
            ),
        final(store).wf(*bounds),
{
    let ghost snap = store@;
    let n: usize = store.agent_count();
    let half_w: i64 = half_dim(bounds.w);
    let half_h: i64 = half_dim(bounds.h);
    let agents = store.raw();
    proof {
        assert(models(agents@) == snap);
    }
    let sums = flock_sums(agents, bounds);
    let mut out: Vec<Agent> = Vec::new();
    let mut i: usize = 0;
    while i < n
        invariant
            i <= n,
            n == snap.len(),
            models(agents@) == snap,
            snap.len() <= MAX_AGENTS,
            forall|j: int| 0 <= j < snap.len() ==> agent_ok(#[trigger] snap[j], *bounds),
            valid_config(*bounds, *params),
            0 <= dt <= MAX_DT,
            half_w == half(bounds.w as int),
            half_h == half(bounds.h as int),
            0 <= half_w <= 500_000,
            0 <= half_h <= 500_000,
            sums.0 == sum_px(snap),
            sums.1 == sum_py(snap),
            sums.2 == sum_vx(snap),
            sums.3 == sum_vy(snap),
            iabs(sums.0 as int) <= 1024 * 500_000,
            iabs(sums.1 as int) <= 1024 * 500_000,
            iabs(sums.2 as int) <= 1024 * 2_000_000,
            iabs(sums.3 as int) <= 1024 * 2_000_000,
            out@.len() == i as int,
            forall|q: int|
                0 <= q < i ==> (#[trigger] out@[q]).model() == tick_agent(
                    snap,
                    q,
                    *bounds,
                    *params,
                    dt as int,
                ),
            forall|q: int| 0 <= q < i ==> agent_ok((#[trigger] out@[q]).model(), *bounds),
        decreases n - i,
    {
        let a = agents[i];
        proof {
            assert(a.model() == snap[i as int]);
            lemma_vel_component_bound(snap[i as int], *bounds);
        }
        let nv: Velocity = if n <= 1 {
            a.vel
        } else {
            steered_velocity(agents, i, sums, bounds, params, dt)
        };
        proof {
            lemma_abs_mul(nv.x as int, 2_000_000, dt as int, 10_000);
            lemma_abs_mul(nv.y as int, 2_000_000, dt as int, 10_000);
        }
        let pdx = div_q(nv.x * dt, 1000);
        let pdy = div_q(nv.y * dt, 1000);
        let npx = wrap_coord(a.x + pdx, half_w);
        let npy = wrap_coord(a.y + pdy, half_h);
        let newa = Agent { x: npx, y: npy, vel: nv };
        proof {
            assert(newa.model() == tick_agent(snap, i as int, *bounds, *params, dt as int));
            if n > 1 {
                lemma_abs_mul(params.max_speed as int, 1_000_000, params.max_speed as int,
                    1_000_000);
            }
            assert(agent_ok(newa.model(), *bounds));
        }
        out.push(newa);
        i = i + 1;
    }
    store.set_raw(out);
    proof {
        assert(store@.len() == snap.len());
        assert(forall|q: int|
            0 <= q < snap.len() ==> store@[q] == tick_agent(snap, q, *bounds, *params, dt as int));
        assert(forall|q: int| 0 <= q < store@.len() ==> agent_ok(#[trigger] store@[q], *bounds));
    }
}

/// One agent after an externally requested turn: velocity rotated by the
/// rotation whose cosine and sine, scaled by `1_000`, are `c` and `s`.
pub open spec fn turned_agent(a: AgentModel, c: int, s: int) -> AgentModel {
    AgentModel {
        px: a.px,
        py: a.py,
        vx: div_trunc(a.vx * c - a.vy * s, 1000),
        vy: div_trunc(a.vx * s + a.vy * c, 1000),
    }
}

/// A turn by a rotation on (or inside) the unit circle never increases
/// the squared speed.
pub proof fn lemma_turn_speed_le(vx: int, vy: int, c: int, s: int)
    requires
        c * c + s * s <= 1_000_000,
    ensures
        nsq(div_trunc(vx * c - vy * s, 1000), div_trunc(vx * s + vy * c, 1000)) <= nsq(vx, vy),
{
    let p1 = vx * c;
    let p2 = vy * s;
    let p3 = vx * s;
    let p4 = vy * c;
    let rx0 = vx * c - vy * s;
    let ry0 = vx * s + vy * c;
    assert(rx0 * rx0 == p1 * p1 - 2 * (p1 * p2) + p2 * p2) by (nonlinear_arith)
        requires
            rx0 == p1 - p2,
    {
    }
    assert(ry0 * ry0 == p3 * p3 + 2 * (p3 * p4) + p4 * p4) by (nonlinear_arith)
        requires
            ry0 == p3 + p4,
    {
    }
    assert(p1 * p2 == p3 * p4) by (nonlinear_arith)
        requires
            p1 == vx * c,
            p2 == vy * s,
            p3 == vx * s,
            p4 == vy * c,
    {
    }
    let q1 = vx * vx;
    let q2 = vy * vy;
    let q3 = c * c;
    let q4 = s * s;
    assert(p1 * p1 == q1 * q3 && p2 * p2 == q2 * q4 && p3 * p3 == q1 * q4 && p4 * p4 == q2 * q3)
        by (nonlinear_arith)
        requires
            p1 == vx * c,
            p2 == vy * s,
            p3 == vx * s,
            p4 == vy * c,
            q1 == vx * vx,
            q2 == vy * vy,
            q3 == c * c,
            q4 == s * s,
    {
    }
    assert((q1 + q2) * (q3 + q4) == q1 * q3 + q1 * q4 + q2 * q3 + q2 * q4) by (nonlinear_arith)
        requires
            true,
    {
    }
    assert(p1 * p1 + p2 * p2 + p3 * p3 + p4 * p4 == (vx * vx + vy * vy) * (c * c + s * s));
    assert(vx * vx + vy * vy >= 0) by (nonlinear_arith)
        requires
            true,
    {
    }
    assert((vx * vx + vy * vy) * (c * c + s * s) <= (vx * vx + vy * vy) * 1_000_000)
        by (nonlinear_arith)
        requires
            c * c + s * s <= 1_000_000,
            vx * vx + vy * vy >= 0,
    {
    }
    let rx = div_trunc(rx0, 1000);
    let ry = div_trunc(ry0, 1000);
    lemma_div_trunc(rx0, 1000);
    lemma_div_trunc(ry0, 1000);
    assert(rx * rx * 1_000_000 <= rx0 * rx0 && ry * ry * 1_000_000 <= ry0 * ry0)
        by (nonlinear_arith)
        requires
            iabs(rx) * 1000 <= iabs(rx0),
            iabs(ry) * 1000 <= iabs(ry0),
            iabs(rx) >= 0,
            iabs(ry) >= 0,
    {
    }
    assert(nsq(rx, ry) <= nsq(vx, vy)) by (nonlinear_arith)
        requires
            rx * rx * 1_000_000 <= rx0 * rx0,
            ry * ry * 1_000_000 <= ry0 * ry0,
            rx0 * rx0 + ry0 * ry0 <= (vx * vx + vy * vy) * 1_000_000,
            nsq(rx, ry) == rx * rx + ry * ry,
            nsq(vx, vy) == vx * vx + vy * vy,
    {
    }
}

/// A turn keeps a well-formed agent well-formed: the position does not
/// move and the speed does not grow.
pub proof fn lemma_turn_preserves_agent_ok(a: AgentModel, b: WinSize, c: int, s: int)
    requires
        agent_ok(a, b),
        c * c + s * s <= 1_000_000,
    ensures
        agent_ok(turned_agent(a, c, s), b),
{
    lemma_turn_speed_le(a.vx, a.vy, c, s);
}

/// Rotates one agent's velocity by the rotation whose cosine and sine,
/// scaled by `1_000`, are `rot_cos` and `rot_sin`, leaving its position
/// and every other agent untouched; fails with `OutOfRange` on an agent
/// identifier the store does not hold. Bypasses the flocking rules.
pub fn apply_turn(store: &mut AgentStore, agent_id: usize, rot_cos: i64, rot_sin: i64) -> (r:
    Result<(), SimError>)
    requires
        old(store).vels_ok(),
        rot_cos * rot_cos + rot_sin * rot_sin <= 1_000_000,
    ensures
        agent_id < old(store)@.len() ==> r == Ok::<(), SimError>(()) && final(store)@ == old(
            store
        )@.update(
            agent_id as int,
            turned_agent(old(store)@[agent_id as int], rot_cos as int, rot_sin as int),
        ),
        agent_id >= old(store)@.len() ==> r == Err::<(), SimError>(SimError::OutOfRange) && final(
            store
        )@ == old(store)@,
{
    let nn = store.agent_count();
    if agent_id >= nn {
        return Err(SimError::OutOfRange);
    }
    let (vx, vy) = store.velocity_of(agent_id);
    proof {
        assert(nsq(store@[agent_id as int].vx, store@[agent_id as int].vy) <= VEL_SQ_CAP);
        assert(vx * vx >= 0 && vy * vy >= 0) by (nonlinear_arith)
            requires
                true,
        {
        }
        assert(-2_000_000 <= vx <= 2_000_000 && -2_000_000 <= vy <= 2_000_000) by (nonlinear_arith)
            requires
                vx * vx + vy * vy <= 4_000_000_000_000,
                vx * vx >= 0,
                vy * vy >= 0,
        {
        }
        assert(rot_cos * rot_cos >= 0 && rot_sin * rot_sin >= 0) by (nonlinear_arith)
            requires
                true,
        {
        }
        assert(-1000 <= rot_cos <= 1000 && -1000 <= rot_sin <= 1000) by (nonlinear_arith)
            requires
                rot_cos * rot_cos <= 1_000_000,
                rot_sin * rot_sin <= 1_000_000,
        {
        }
        lemma_abs_mul(vx as int, 2_000_000, rot_cos as int, 1000);
        lemma_abs_mul(vy as int, 2_000_000, rot_sin as int, 1000);
        lemma_abs_mul(vx as int, 2_000_000, rot_sin as int, 1000);
        lemma_abs_mul(vy as int, 2_000_000, rot_cos as int, 1000);
    }
    let rx0 = vx * rot_cos - vy * rot_sin;
    let ry0 = vx * rot_sin + vy * rot_cos;
    let nvx = div_q(rx0, 1000);
    let nvy = div_q(ry0, 1000);
    let (px, py) = store.position_of(agent_id);
    store.set_agent(agent_id, Agent { x: px, y: py, vel: Velocity { x: nvx, y: nvy } });
    Ok(())
}

} // verus!
