//! The engine's laws, stated over the tick model and proved once for all
//! inputs.

use vstd::prelude::*;
use crate::clamp::{lemma_clamp_ge, lemma_clamp_le};
use crate::components::nsq;
use crate::config::{half, FlockParams, WinSize};
use crate::flock::{
    f_px, f_py, f_sep_x, f_sep_y, f_vx, f_vy, steer_x, steer_y, tick_agent, wrap_spec,
};
use crate::math::div_trunc;
use crate::store::AgentModel;
use crate::sums::lemma_sum_by_permutation;

verus! {

/// Speed bound invariant: with at least two agents and a speed interval
/// wide enough for the fixed-point rescaling (`min + 4 <= max`,
/// `8 <= max`, in milli-units), every agent's squared speed lies within
/// `[min^2, max^2]` after a tick. An interval narrower than that can be
/// missed by rounding: no integer vector in the direction of `(1, 1)`
/// has norm exactly `3`, for instance.
pub proof fn lemma_speed_bounds(s: Seq<AgentModel>, i: int, b: WinSize, p: FlockParams, dt: int)
    requires
        2 <= s.len(),
        0 <= i < s.len(),
        0 <= p.min_speed,
        p.min_speed + 4 <= p.max_speed,
        8 <= p.max_speed,
    ensures
        ({
            let a = tick_agent(s, i, b, p, dt);
            p.min_speed * p.min_speed <= nsq(a.vx, a.vy) <= p.max_speed * p.max_speed
        }),
{
    let vx = s[i].vx + steer_x(s, i, p, dt);
    let vy = s[i].vy + steer_y(s, i, p, dt);
    lemma_clamp_le(vx, vy, s[i].vx, s[i].vy, p.min_speed as int, p.max_speed as int);
    lemma_clamp_ge(vx, vy, s[i].vx, s[i].vy, p.min_speed as int, p.max_speed as int);
}

/// Wrap correctness: the toroidal wrap teleports a point past either
/// edge to the opposite edge and keeps everything else, so its result
/// always lies in `[-h, h]`.
pub proof fn lemma_wrap_in_range(x: int, h: int)
    requires
        0 <= h,
    ensures
        -h <= wrap_spec(x, h) <= h,
        x > h ==> wrap_spec(x, h) == -h,
        x < -h ==> wrap_spec(x, h) == h,
        -h <= x <= h ==> wrap_spec(x, h) == x,
{
}

/// Single-agent determinism: an agent without flockmates keeps its
/// velocity exactly and advances by the same displacement every tick, a
/// straight line at constant speed (up to the wrap).
pub proof fn lemma_single_agent(s: Seq<AgentModel>, b: WinSize, p: FlockParams, dt: int)
    requires
        s.len() == 1,
    ensures
        tick_agent(s, 0, b, p, dt).vx == s[0].vx,
        tick_agent(s, 0, b, p, dt).vy == s[0].vy,
        tick_agent(s, 0, b, p, dt).px == wrap_spec(
            s[0].px + div_trunc(s[0].vx * dt, 1000),
            half(b.w as int),
        ),
        tick_agent(s, 0, b, p, dt).py == wrap_spec(
            s[0].py + div_trunc(s[0].vy * dt, 1000),
            half(b.h as int),
        ),
{
}

/// Order independence: a tick reads only the snapshot, and every
/// aggregate is a sum, so storing the agents in any other order gives
/// each agent exactly the same next state.
pub proof fn lemma_order_independence(
    s1: Seq<AgentModel>,
    s2: Seq<AgentModel>,
    i: int,
    j: int,
    b: WinSize,
    p: FlockParams,
    dt: int,
)
    requires
        s1.to_multiset() == s2.to_multiset(),
        0 <= i < s1.len(),
        0 <= j < s2.len(),
        s1[i] == s2[j],
    ensures
        tick_agent(s1, i, b, p, dt) == tick_agent(s2, j, b, p, dt),
{
    broadcast use vstd::seq_lib::group_to_multiset_ensures;

    assert(s1.to_multiset().len() == s1.len());
    assert(s2.to_multiset().len() == s2.len());
    if s1.len() > 1 {
        let d = p.separation_distance as int;
        lemma_sum_by_permutation(s1, s2, f_px());
        lemma_sum_by_permutation(s1, s2, f_py());
        lemma_sum_by_permutation(s1, s2, f_vx());
        lemma_sum_by_permutation(s1, s2, f_vy());
        lemma_sum_by_permutation(s1, s2, f_sep_x(s1[i], d));
        lemma_sum_by_permutation(s1, s2, f_sep_y(s1[i], d));
        assert(steer_x(s1, i, p, dt) == steer_x(s2, j, p, dt));
        assert(steer_y(s1, i, p, dt) == steer_y(s2, j, p, dt));
    }
}

} // verus!
