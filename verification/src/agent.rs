//! The agent record ("squirrel") and the live population.

use crate::params::MAX_AGENTS;
use vstd::prelude::*;

verus! {

/// A 2D vector in milli-units; used for both positions and velocities
/// (the scene is 2D, so no third component is carried).
#[derive(Clone, Copy, PartialEq, Eq, Structural, Debug)]
pub struct Vec2 {
    pub x: i64,
    pub y: i64,
}

/// One simulated flocking agent.
#[derive(Clone, Copy, PartialEq, Eq, Structural, Debug)]
pub struct Agent {
    /// Mutated only by the integrator.
    pub position: Vec2,
    /// Magnitude = speed, direction = heading; mutated by the flocking
    /// rules, the regulator, and boundary reflection.
    pub velocity: Vec2,
    /// Stable identifier assigned at creation; excludes the agent itself
    /// from separation scans.
    pub id: u32,
}

/// The live collection of agents: populated once at startup, never resized
/// during the run. Order is irrelevant to the rules (every scan walks the
/// whole population) but stable within a tick.
pub struct AgentStore {
    pub agents: Vec<Agent>,
}

/// Both components of `v` have magnitude at most `limit`.
pub open spec fn coord_ok(v: Vec2, limit: int) -> bool {
    -limit <= v.x <= limit && -limit <= v.y <= limit
}

/// The agent's position and velocity fit under the given magnitude caps.
pub open spec fn agent_ok(a: Agent, pos_limit: int, vel_limit: int) -> bool {
    coord_ok(a.position, pos_limit) && coord_ok(a.velocity, vel_limit)
}

/// Every agent of the sequence fits under the given magnitude caps.
pub open spec fn agents_ok(s: Seq<Agent>, pos_limit: int, vel_limit: int) -> bool {
    forall|i: int| 0 <= i < s.len() ==> #[trigger] agent_ok(s[i], pos_limit, vel_limit)
}

/// Magnitude caps only widen.
pub proof fn lemma_agents_ok_weaken(s: Seq<Agent>, pl1: int, vl1: int, pl2: int, vl2: int)
    requires
        agents_ok(s, pl1, vl1),
        pl1 <= pl2,
        vl1 <= vl2,
    ensures
        agents_ok(s, pl2, vl2),
{
    assert forall|i: int| 0 <= i < s.len() implies #[trigger] agent_ok(s[i], pl2, vl2) by {
        assert(agent_ok(s[i], pl1, vl1));
    }
}

impl AgentStore {
    /// An empty population.
    pub fn new() -> (store: AgentStore)
        ensures
            store.agents@ == Seq::<Agent>::empty(),
    {
        let store = AgentStore { agents: Vec::new() };
        proof {
            assert(store.agents@ =~= Seq::<Agent>::empty());
        }
        store
    }

    /// Number of live agents.
    pub fn len(&self) -> (n: usize)
        ensures
            n == self.agents@.len(),
    {
        self.agents.len()
    }

    /// The agent at index `i`.
    pub fn get(&self, i: usize) -> (a: Agent)
        requires
            i < self.agents@.len(),
        ensures
            a == self.agents@[i as int],
    {
        self.agents[i]
    }

    /// Add one agent; startup only (the population is fixed during the run).
    pub fn push(&mut self, a: Agent)
        requires
            old(self).agents@.len() < MAX_AGENTS,
        ensures
            final(self).agents@ == old(self).agents@.push(a),
    {
        self.agents.push(a);
    }
}

} // verus!
