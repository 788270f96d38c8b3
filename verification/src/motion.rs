//! Velocity regulation and integration (boundary reflection + position
//! update).
//!
//! Regulation is a soft band-pass, not a clamp: an out-of-band speed is
//! nudged by 0.5% per tick and may take several ticks to return to the band.
//! Reflection checks the x axis first and the y axis only in the `else`
//! branch: an agent leaving through a corner reflects on x alone that tick.
//! The asymmetry is part of the rule as specified, not an accident to be
//! smoothed over, and the tests pin it down.
//!
//! A graphical host may also want a cosmetic sprite rotation derived from
//! the velocity heading; that is trigonometry on the rendering side and
//! carries no simulation state, so the core keeps no facing and the host
//! derives one from the velocity it reads back.

use crate::agent::{agent_ok, agents_ok, Agent, AgentStore, Vec2};
use crate::bounds::Bounds;
use crate::math::{div_t, div_trunc, lemma_div_t_bound};
use crate::params::{
    HIGH_SPEED, LOW_SPEED, MAX_AGENTS, POS_CAP_END, POS_LIMIT, REGULATION_NUM, SCALE,
    TICKS_PER_SECOND, VEL_CAP_MOVE, VEL_CAP_REGULATE,
};
use vstd::prelude::*;

verus! {

/// Velocity after the regulation rule: below the band, nudge away from
/// zero by `REGULATION_NUM / SCALE`; above it, nudge toward zero; inside
/// it (ends included), leave the velocity untouched.
pub open spec fn regulated_velocity(v: Vec2) -> Vec2 {
    let m = v.x * v.x + v.y * v.y;
    if m < LOW_SPEED * LOW_SPEED {
        Vec2 {
            x: (v.x + div_t(v.x * REGULATION_NUM, SCALE as int)) as i64,
            y: (v.y + div_t(v.y * REGULATION_NUM, SCALE as int)) as i64,
        }
    } else if m > HIGH_SPEED * HIGH_SPEED {
        Vec2 {
            x: (v.x - div_t(v.x * REGULATION_NUM, SCALE as int)) as i64,
            y: (v.y - div_t(v.y * REGULATION_NUM, SCALE as int)) as i64,
        }
    } else {
        v
    }
}

/// The whole population after one regulation pass.
pub open spec fn regulate_step(s: Seq<Agent>) -> Seq<Agent> {
    Seq::new(
        s.len(),
        |i: int| Agent {
            position: s[i].position,
            velocity: regulated_velocity(s[i].velocity),
            id: s[i].id,
        },
    )
}

/// Velocity after boundary reflection: x is negated when the agent stands
/// beyond the x extent and still moves outward; otherwise — and only then —
/// the same check runs on y.
pub open spec fn reflected_velocity(p: Vec2, v: Vec2, b: Bounds) -> Vec2 {
    if (p.x > b.half_width && v.x > 0) || (p.x < -b.half_width && v.x < 0) {
        Vec2 { x: (-v.x) as i64, y: v.y }
    } else if (p.y > b.half_height && v.y > 0) || (p.y < -b.half_height && v.y < 0) {
        Vec2 { x: v.x, y: (-v.y) as i64 }
    } else {
        v
    }
}

/// One integration step for one agent: reflect, then advance the position
/// by `velocity / TICKS_PER_SECOND` (one fixed timestep).
pub open spec fn moved_agent(a: Agent, b: Bounds) -> Agent {
    let rv = reflected_velocity(a.position, a.velocity, b);
    Agent {
        position: Vec2 {
            x: (a.position.x + div_t(rv.x as int, TICKS_PER_SECOND as int)) as i64,
            y: (a.position.y + div_t(rv.y as int, TICKS_PER_SECOND as int)) as i64,
        },
        velocity: rv,
        id: a.id,
    }
}

/// The whole population after one integration pass.
pub open spec fn move_step(s: Seq<Agent>, b: Bounds) -> Seq<Agent> {
    Seq::new(s.len(), |i: int| moved_agent(s[i], b))
}

/// Keep each agent from going too fast or too slow: the fourth rule of a
/// tick, after the flocking rules and before integration.
pub fn regulate_velocities(store: &mut AgentStore)
    requires
        old(store).agents@.len() <= MAX_AGENTS,
        agents_ok(old(store).agents@, POS_LIMIT as int, VEL_CAP_REGULATE as int),
    ensures
        final(store).agents@ == regulate_step(old(store).agents@),
        agents_ok(final(store).agents@, POS_LIMIT as int, VEL_CAP_MOVE as int),
{
    let ghost s0 = store.agents@;
    let n: usize = store.agents.len();
    let mut updated: Vec<Agent> = Vec::new();
    let mut i: usize = 0;
    while i < n
        invariant
            n == s0.len(),
            store.agents@ == s0,
            agents_ok(s0, POS_LIMIT as int, VEL_CAP_REGULATE as int),
            i <= n,
            updated@.len() == i,
            forall|k: int| 0 <= k < i ==> #[trigger] updated@[k] == regulate_step(s0)[k],
            forall|k: int| 0 <= k < i ==> agent_ok(
                #[trigger] updated@[k],
                POS_LIMIT as int,
                VEL_CAP_MOVE as int,
            ),
        decreases n - i,
    {
        let a: Agent = store.agents[i];
        proof {
            assert(agent_ok(s0[i as int], POS_LIMIT as int, VEL_CAP_REGULATE as int));
            assert(0 <= a.velocity.x * a.velocity.x <= 1_527_696_000_000_000_000) by (nonlinear_arith)
                requires
                    -1_236_000_000 <= a.velocity.x <= 1_236_000_000,
            ;
            assert(0 <= a.velocity.y * a.velocity.y <= 1_527_696_000_000_000_000) by (nonlinear_arith)
                requires
                    -1_236_000_000 <= a.velocity.y <= 1_236_000_000,
            ;
            lemma_div_t_bound(a.velocity.x * (REGULATION_NUM as int), SCALE as int, 6_180_000);
            lemma_div_t_bound(a.velocity.y * (REGULATION_NUM as int), SCALE as int, 6_180_000);
        }
        let msq: i64 = a.velocity.x * a.velocity.x + a.velocity.y * a.velocity.y;
        let new_velocity: Vec2;
        if msq < LOW_SPEED * LOW_SPEED {
            let dvx: i64 = div_trunc(a.velocity.x * REGULATION_NUM, SCALE);
            let dvy: i64 = div_trunc(a.velocity.y * REGULATION_NUM, SCALE);
            new_velocity = Vec2 { x: a.velocity.x + dvx, y: a.velocity.y + dvy };
        } else if msq > HIGH_SPEED * HIGH_SPEED {
            let dvx: i64 = div_trunc(a.velocity.x * REGULATION_NUM, SCALE);
            let dvy: i64 = div_trunc(a.velocity.y * REGULATION_NUM, SCALE);
            new_velocity = Vec2 { x: a.velocity.x - dvx, y: a.velocity.y - dvy };
        } else {
            new_velocity = a.velocity;
        }
        let next = Agent { position: a.position, velocity: new_velocity, id: a.id };
        proof {
            assert(next == regulate_step(s0)[i as int]);
            assert(agent_ok(next, POS_LIMIT as int, VEL_CAP_MOVE as int));
        }
        updated.push(next);
        i = i + 1;
    }
    store.agents = updated;
    proof {
        assert(store.agents@ =~= regulate_step(s0));
    }
}

/// Reflect each agent off the viewport edges and advance it by one fixed
/// timestep: the last rule of a tick.
pub fn move_squirrels(store: &mut AgentStore, bounds: &Bounds)
    requires
        agents_ok(old(store).agents@, POS_LIMIT as int, VEL_CAP_MOVE as int),
        0 <= bounds.half_width,
        0 <= bounds.half_height,
    ensures
        final(store).agents@ == move_step(old(store).agents@, *bounds),
        agents_ok(final(store).agents@, POS_CAP_END as int, VEL_CAP_MOVE as int),
{
    let ghost s0 = store.agents@;
    let n: usize = store.agents.len();
    let mut updated: Vec<Agent> = Vec::new();
    let mut i: usize = 0;
    while i < n
        invariant
            n == s0.len(),
            store.agents@ == s0,
            agents_ok(s0, POS_LIMIT as int, VEL_CAP_MOVE as int),
            0 <= bounds.half_width,
            0 <= bounds.half_height,
            i <= n,
            updated@.len() == i,
            forall|k: int| 0 <= k < i ==> #[trigger] updated@[k] == move_step(s0, *bounds)[k],
            forall|k: int| 0 <= k < i ==> agent_ok(
                #[trigger] updated@[k],
                POS_CAP_END as int,
                VEL_CAP_MOVE as int,
            ),
        decreases n - i,
    {
        let a: Agent = store.agents[i];
        proof {
            assert(agent_ok(s0[i as int], POS_LIMIT as int, VEL_CAP_MOVE as int));
        }
        let mut vx: i64 = a.velocity.x;
        let mut vy: i64 = a.velocity.y;
        if (a.position.x > bounds.half_width && vx > 0)
            || (a.position.x < -bounds.half_width && vx < 0) {
            vx = -vx;
        } else if (a.position.y > bounds.half_height && vy > 0)
            || (a.position.y < -bounds.half_height && vy < 0) {
            vy = -vy;
        }
        proof {
            lemma_div_t_bound(vx as int, TICKS_PER_SECOND as int, 20_703_000);
            lemma_div_t_bound(vy as int, TICKS_PER_SECOND as int, 20_703_000);
        }
        let px: i64 = a.position.x + div_trunc(vx, TICKS_PER_SECOND);
        let py: i64 = a.position.y + div_trunc(vy, TICKS_PER_SECOND);
        let next = Agent {
            position: Vec2 { x: px, y: py },
            velocity: Vec2 { x: vx, y: vy },
            id: a.id,
        };
        proof {
            assert(next == move_step(s0, *bounds)[i as int]);
            assert(agent_ok(next, POS_CAP_END as int, VEL_CAP_MOVE as int));
        }
        updated.push(next);
        i = i + 1;
    }
    store.agents = updated;
    proof {
        assert(store.agents@ =~= move_step(s0, *bounds));
    }
}

} // verus!
