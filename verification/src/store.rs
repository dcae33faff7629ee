//! The agent store: owns the mutable state of every agent of one
//! simulation, and nothing else.

use vstd::prelude::*;
use crate::components::{nsq, Velocity};
use crate::config::{half, WinSize, MAX_AGENTS, VEL_SQ_CAP};
use crate::math::iabs;

verus! {

/// Mathematical image of one agent: exact integer position and velocity.
pub struct AgentModel {
    pub px: int,
    pub py: int,
    pub vx: int,
    pub vy: int,
}

/// One agent: a position inside the bounded plane and a velocity, both in
/// milli-units.
#[derive(Clone, Copy, PartialEq, Eq, Structural, Debug)]
pub struct Agent {
    pub x: i64,
    pub y: i64,
    pub vel: Velocity,
}

impl Agent {
    pub open spec fn model(self) -> AgentModel {
        AgentModel {
            px: self.x as int,
            py: self.y as int,
            vx: self.vel.x as int,
            vy: self.vel.y as int,
        }
    }
}

/// The snapshot a vector of agents stands for.
pub open spec fn models(v: Seq<Agent>) -> Seq<AgentModel> {
    v.map_values(|a: Agent| a.model())
}

/// One agent's state is in range: position inside the wrap domain, speed
/// under the engine's velocity cap.
pub open spec fn agent_ok(a: AgentModel, b: WinSize) -> bool {
    &&& iabs(a.px) <= half(b.w as int)
    &&& iabs(a.py) <= half(b.h as int)
    &&& nsq(a.vx, a.vy) <= VEL_SQ_CAP
}

/// Owns every agent of one simulation. Order is insertion order,
/// arbitrary but stable within a run.
pub struct AgentStore {
    agents: Vec<Agent>,
}

impl View for AgentStore {
    type V = Seq<AgentModel>;

    closed spec fn view(&self) -> Seq<AgentModel> {
        self.agents@.map_values(|a: Agent| a.model())
    }
}

impl AgentStore {
    /// Every agent is in range and the store is small enough for a tick's
    /// arithmetic to stay in 64 bits.
    pub open spec fn wf(self, b: WinSize) -> bool {
        &&& self@.len() <= MAX_AGENTS
        &&& forall|i: int| 0 <= i < self@.len() ==> agent_ok(#[trigger] self@[i], b)
    }

    /// An empty store.
    pub fn new() -> (r: AgentStore)
        ensures
            r@ == Seq::<AgentModel>::empty(),
    {
        let r = AgentStore { agents: Vec::new() };
        proof {
            assert(r@ =~= Seq::<AgentModel>::empty());
        }
        r
    }

    pub(crate) fn raw(&self) -> (r: &Vec<Agent>)
        ensures
            r@.map_values(|a: Agent| a.model()) == self@,
    {
        &self.agents
    }

    pub(crate) fn set_raw(&mut self, agents: Vec<Agent>)
        ensures
            final(self)@ == agents@.map_values(|a: Agent| a.model()),
    {
        self.agents = agents;
    }

    /// Speed cap alone, for operations that do not touch positions.
    pub open spec fn vels_ok(self) -> bool {
        forall|i: int|
            0 <= i < self@.len() ==> nsq(#[trigger] self@[i].vx, self@[i].vy) <= VEL_SQ_CAP
    }

    /// Overwrites one agent.
    pub(crate) fn set_agent(&mut self, i: usize, a: Agent)
        requires
            i < old(self)@.len(),
        ensures
            final(self)@ == old(self)@.update(i as int, a.model()),
    {
        self.agents[i] = a;
        proof {
            assert(self.agents@.map_values(|ag: Agent| ag.model()) =~= old(
                self,
            ).agents@.map_values(|ag: Agent| ag.model()).update(i as int, a.model()));
        }
    }

    /// Appends one agent.
    pub fn push(&mut self, a: Agent)
        ensures
            final(self)@ == old(self)@.push(a.model()),
    {
        self.agents.push(a);
        proof {
            assert(self.agents@.map_values(|ag: Agent| ag.model()) =~= old(
                self,
            ).agents@.map_values(|ag: Agent| ag.model()).push(a.model()));
        }
    }

    /// How many agents the store holds.
    pub fn agent_count(&self) -> (r: usize)
        ensures
            r == self@.len(),
    {
        self.agents.len()
    }

    /// Position of agent `i`, in milli-units.
    pub fn position_of(&self, i: usize) -> (r: (i64, i64))
        requires
            i < self@.len(),
        ensures
            r.0 == self@[i as int].px,
            r.1 == self@[i as int].py,
    {
        let a = &self.agents[i];
        (a.x, a.y)
    }

    /// Velocity of agent `i`, in milli-units per second.
    pub fn velocity_of(&self, i: usize) -> (r: (i64, i64))
        requires
            i < self@.len(),
        ensures
            r.0 == self@[i as int].vx,
            r.1 == self@[i as int].vy,
    {
        let a = &self.agents[i];
        (a.vel.x, a.vel.y)
    }

    /// Floor of agent `i`'s speed, in milli-units per second.
    pub fn speed_of(&self, i: usize) -> (r: i64)
        requires
            i < self@.len(),
            nsq(self@[i as int].vx, self@[i as int].vy) < 0x4000_0000_0000_0000,
        ensures
            r == crate::math::sqrt_floor(nsq(self@[i as int].vx, self@[i as int].vy)),
    {
        self.agents[i].vel.magnitude()
    }

    /// Direction of agent `i`'s heading, as a vector rescaled to a norm of
    /// about one unit; `(0, 0)` for an agent at rest. The caller owns any
    /// conversion to an angle.
    pub fn heading_of(&self, i: usize) -> (r: (i64, i64))
        requires
            i < self@.len(),
            nsq(self@[i as int].vx, self@[i as int].vy) < 0x4000_0000_0000_0000,
        ensures
            ({
                let vx = self@[i as int].vx;
                let vy = self@[i as int].vy;
                if nsq(vx, vy) == 0 {
                    r.0 == 0 && r.1 == 0
                } else {
                    r.0 == crate::math::div_trunc(vx * 1000, crate::math::sqrt_floor(nsq(vx, vy)))
                        && r.1 == crate::math::div_trunc(
                        vy * 1000,
                        crate::math::sqrt_floor(nsq(vx, vy)),
                    )
                }
            }),
    {
        let v = self.agents[i].vel;
        if v.x == 0 && v.y == 0 {
            proof {
                assert(nsq(v.x as int, v.y as int) == 0);
            }
            (0, 0)
        } else {
            let mut d = v;
            proof {
                assert(nsq(v.x as int, v.y as int) >= 1) by (nonlinear_arith)
                    requires
                        !(v.x == 0 && v.y == 0),
                {
                }
            }
            d.normalize();
            (d.x, d.y)
        }
    }
}

} // verus!
