//! The three flocking rules: centering (cohesion), alignment, separation.
//!
//! Each rule evaluates every agent against the same pre-rule snapshot of the
//! population, computes a velocity delta from a full pairwise scan, and
//! applies all deltas at once; consecutive rules see each other's updates.
//! Centering and alignment deliberately include the agent itself in the
//! neighbour average (which dampens their pull); separation excludes the
//! agent by id and has no minimum neighbour count.

use crate::agent::{agent_ok, agents_ok, Agent, AgentStore, coord_ok, Vec2};
use crate::math::{div_t, div_trunc, lemma_div_t_bound};
use crate::params::{
    ALIGNMENT_NUM, CENTERING_NUM, FLOCKING_RANGE, MAX_AGENTS, POS_LIMIT, SCALE,
    SEPARATION_DISTANCE, SEPARATION_NUM, VEL_CAP_ALIGN, VEL_CAP_CENTER, VEL_CAP_REGULATE,
    VEL_CAP_SEPARATE,
};
use crate::scan::{lemma_scan_step, scan_count, scan_sum};
use vstd::prelude::*;

verus! {

/// Squared Euclidean distance between two points.
pub open spec fn dist_sq(p: Vec2, q: Vec2) -> int {
    (p.x - q.x) * (p.x - q.x) + (p.y - q.y) * (p.y - q.y)
}

/// Strictly within the cohesion/alignment neighbourhood.
pub open spec fn in_flock_range(p: Vec2, q: Vec2) -> bool {
    dist_sq(p, q) < FLOCKING_RANGE * FLOCKING_RANGE
}

/// Strictly within the (tighter) repulsion neighbourhood.
pub open spec fn in_separation_range(p: Vec2, q: Vec2) -> bool {
    dist_sq(p, q) < SEPARATION_DISTANCE * SEPARATION_DISTANCE
}

/// Selects the agents within flocking range of `p` (the scanning agent
/// included: its own distance is zero).
pub open spec fn flock_sel(p: Vec2) -> spec_fn(Agent) -> bool {
    |b: Agent| in_flock_range(p, b.position)
}

/// Selects the agents within separation range of `p`, the agent with the
/// given id excluded.
pub open spec fn sep_sel(p: Vec2, id: u32) -> spec_fn(Agent) -> bool {
    |b: Agent| b.id != id && in_separation_range(p, b.position)
}

/// Projects an agent's position x.
pub open spec fn pos_x_of() -> spec_fn(Agent) -> int {
    |b: Agent| b.position.x as int
}

/// Projects an agent's position y.
pub open spec fn pos_y_of() -> spec_fn(Agent) -> int {
    |b: Agent| b.position.y as int
}

/// Projects an agent's velocity x.
pub open spec fn vel_x_of() -> spec_fn(Agent) -> int {
    |b: Agent| b.velocity.x as int
}

/// Projects an agent's velocity y.
pub open spec fn vel_y_of() -> spec_fn(Agent) -> int {
    |b: Agent| b.velocity.y as int
}

/// Offset x from an agent back to the scanning position `p`.
pub open spec fn offset_x_from(p: Vec2) -> spec_fn(Agent) -> int {
    |b: Agent| p.x - b.position.x
}

/// Offset y from an agent back to the scanning position `p`.
pub open spec fn offset_y_from(p: Vec2) -> spec_fn(Agent) -> int {
    |b: Agent| p.y - b.position.y
}

/// Number of agents of `s` within flocking range of `p`.
pub open spec fn flock_count(s: Seq<Agent>, p: Vec2) -> int {
    scan_count(s, flock_sel(p))
}

/// Velocity x after the centering rule: with at least two neighbours, the
/// truncated mean neighbour position pulls the agent by `CENTERING_NUM /
/// SCALE`; below two neighbours the rule is a no-op.
pub open spec fn centering_vel_x(s: Seq<Agent>, a: Agent) -> int {
    let n = flock_count(s, a.position);
    if n >= 2 {
        let mx = div_t(scan_sum(s, flock_sel(a.position), pos_x_of()), n);
        a.velocity.x + div_t((mx - a.position.x) * CENTERING_NUM, SCALE as int)
    } else {
        a.velocity.x as int
    }
}

/// Velocity y after the centering rule.
pub open spec fn centering_vel_y(s: Seq<Agent>, a: Agent) -> int {
    let n = flock_count(s, a.position);
    if n >= 2 {
        let my = div_t(scan_sum(s, flock_sel(a.position), pos_y_of()), n);
        a.velocity.y + div_t((my - a.position.y) * CENTERING_NUM, SCALE as int)
    } else {
        a.velocity.y as int
    }
}

/// Velocity x after the alignment rule: with at least two neighbours, the
/// truncated mean neighbour velocity pulls the agent's velocity by
/// `ALIGNMENT_NUM / SCALE`; below two neighbours the rule is a no-op.
pub open spec fn alignment_vel_x(s: Seq<Agent>, a: Agent) -> int {
    let n = flock_count(s, a.position);
    if n >= 2 {
        let mx = div_t(scan_sum(s, flock_sel(a.position), vel_x_of()), n);
        a.velocity.x + div_t((mx - a.velocity.x) * ALIGNMENT_NUM, SCALE as int)
    } else {
        a.velocity.x as int
    }
}

/// Velocity y after the alignment rule.
pub open spec fn alignment_vel_y(s: Seq<Agent>, a: Agent) -> int {
    let n = flock_count(s, a.position);
    if n >= 2 {
        let my = div_t(scan_sum(s, flock_sel(a.position), vel_y_of()), n);
        a.velocity.y + div_t((my - a.velocity.y) * ALIGNMENT_NUM, SCALE as int)
    } else {
        a.velocity.y as int
    }
}

/// Velocity x after the separation rule: the summed offsets away from every
/// strictly-closer-than-`SEPARATION_DISTANCE` other agent, scaled by
/// `SEPARATION_NUM / SCALE`, are added (even a single close neighbour
/// repels).
pub open spec fn separation_vel_x(s: Seq<Agent>, a: Agent) -> int {
    a.velocity.x + div_t(
        scan_sum(s, sep_sel(a.position, a.id), offset_x_from(a.position)) * SEPARATION_NUM,
        SCALE as int,
    )
}

/// Velocity y after the separation rule.
pub open spec fn separation_vel_y(s: Seq<Agent>, a: Agent) -> int {
    a.velocity.y + div_t(
        scan_sum(s, sep_sel(a.position, a.id), offset_y_from(a.position)) * SEPARATION_NUM,
        SCALE as int,
    )
}

/// The whole population after one centering pass over the snapshot `s`.
pub open spec fn center_step(s: Seq<Agent>) -> Seq<Agent> {
    Seq::new(
        s.len(),
        |i: int| Agent {
            position: s[i].position,
            velocity: Vec2 {
                x: centering_vel_x(s, s[i]) as i64,
                y: centering_vel_y(s, s[i]) as i64,
            },
            id: s[i].id,
        },
    )
}

/// The whole population after one alignment pass over the snapshot `s`.
pub open spec fn align_step(s: Seq<Agent>) -> Seq<Agent> {
    Seq::new(
        s.len(),
        |i: int| Agent {
            position: s[i].position,
            velocity: Vec2 {
                x: alignment_vel_x(s, s[i]) as i64,
                y: alignment_vel_y(s, s[i]) as i64,
            },
            id: s[i].id,
        },
    )
}

/// The whole population after one separation pass over the snapshot `s`.
pub open spec fn separate_step(s: Seq<Agent>) -> Seq<Agent> {
    Seq::new(
        s.len(),
        |i: int| Agent {
            position: s[i].position,
            velocity: Vec2 {
                x: separation_vel_x(s, s[i]) as i64,
                y: separation_vel_y(s, s[i]) as i64,
            },
            id: s[i].id,
        },
    )
}

/// Whether `dist_sq(p, q) < range * range`, for coordinates within
/// `POS_LIMIT` (so the squares fit in an `i64`).
fn within_range_sq(p: Vec2, q: Vec2, range: i64) -> (r: bool)
    requires
        coord_ok(p, POS_LIMIT as int),
        coord_ok(q, POS_LIMIT as int),
        0 < range <= 1_000_000,
    ensures
        r == (dist_sq(p, q) < range * range),
{
    let dx: i64 = p.x - q.x;
    let dy: i64 = p.y - q.y;
    proof {
        assert(0 <= dx * dx <= 4_000_000_000_000_000_000) by (nonlinear_arith)
            requires
                -2_000_000_000 <= dx <= 2_000_000_000,
        ;
        assert(0 <= dy * dy <= 4_000_000_000_000_000_000) by (nonlinear_arith)
            requires
                -2_000_000_000 <= dy <= 2_000_000_000,
        ;
        assert(0 < range * range <= 1_000_000_000_000) by (nonlinear_arith)
            requires
                0 < range <= 1_000_000,
        ;
    }
    dx * dx + dy * dy < range * range
}

/// Pull each agent toward the centre of its local flock: the first rule of
/// a tick.
pub fn center_squirrels(store: &mut AgentStore)
    requires
        old(store).agents@.len() <= MAX_AGENTS,
        agents_ok(old(store).agents@, POS_LIMIT as int, VEL_CAP_CENTER as int),
    ensures
        final(store).agents@ == center_step(old(store).agents@),
        agents_ok(final(store).agents@, POS_LIMIT as int, VEL_CAP_ALIGN as int),
{
    let ghost s0 = store.agents@;
    let n: usize = store.agents.len();
    let mut updated: Vec<Agent> = Vec::new();
    let mut i: usize = 0;
    while i < n
        invariant
            n == s0.len(),
            n <= MAX_AGENTS,
            store.agents@ == s0,
            agents_ok(s0, POS_LIMIT as int, VEL_CAP_CENTER as int),
            i <= n,
            updated@.len() == i,
            forall|k: int| 0 <= k < i ==> #[trigger] updated@[k] == center_step(s0)[k],
            forall|k: int| 0 <= k < i ==> agent_ok(
                #[trigger] updated@[k],
                POS_LIMIT as int,
                VEL_CAP_ALIGN as int,
            ),
        decreases n - i,
    {
        let a: Agent = store.agents[i];
        proof {
            assert(agent_ok(s0[i as int], POS_LIMIT as int, VEL_CAP_CENTER as int));
        }
        let mut cnt: usize = 0;
        let mut sx: i64 = 0;
        let mut sy: i64 = 0;
        let mut j: usize = 0;
        while j < n
            invariant
                n == s0.len(),
                n <= MAX_AGENTS,
                store.agents@ == s0,
                agents_ok(s0, POS_LIMIT as int, VEL_CAP_CENTER as int),
                i < n,
                a == s0[i as int],
                agent_ok(a, POS_LIMIT as int, VEL_CAP_CENTER as int),
                j <= n,
                cnt == scan_count(s0.take(j as int), flock_sel(a.position)),
                sx == scan_sum(s0.take(j as int), flock_sel(a.position), pos_x_of()),
                sy == scan_sum(s0.take(j as int), flock_sel(a.position), pos_y_of()),
                0 <= cnt <= j,
                -(cnt * (POS_LIMIT as int)) <= sx <= cnt * (POS_LIMIT as int),
                -(cnt * (POS_LIMIT as int)) <= sy <= cnt * (POS_LIMIT as int),
            decreases n - j,
        {
            let b: Agent = store.agents[j];
            proof {
                assert(agent_ok(s0[j as int], POS_LIMIT as int, VEL_CAP_CENTER as int));
                lemma_scan_step(s0, flock_sel(a.position), pos_x_of(), j as int);
                lemma_scan_step(s0, flock_sel(a.position), pos_y_of(), j as int);
            }
            if within_range_sq(a.position, b.position, FLOCKING_RANGE) {
                sx = sx + b.position.x;
                sy = sy + b.position.y;
                cnt = cnt + 1;
            }
            j = j + 1;
        }
        proof {
            assert(s0.take(n as int) =~= s0);
        }
        let new_velocity: Vec2;
        if cnt >= 2 {
            proof {
                lemma_div_t_bound(sx as int, cnt as int, POS_LIMIT as int);
                lemma_div_t_bound(sy as int, cnt as int, POS_LIMIT as int);
            }
            let mx: i64 = div_trunc(sx, cnt as i64);
            let my: i64 = div_trunc(sy, cnt as i64);
            proof {
                lemma_div_t_bound(
                    (mx - a.position.x) * (CENTERING_NUM as int),
                    SCALE as int,
                    10_000_000,
                );
                lemma_div_t_bound(
                    (my - a.position.y) * (CENTERING_NUM as int),
                    SCALE as int,
                    10_000_000,
                );
            }
            let dvx: i64 = div_trunc((mx - a.position.x) * CENTERING_NUM, SCALE);
            let dvy: i64 = div_trunc((my - a.position.y) * CENTERING_NUM, SCALE);
            new_velocity = Vec2 { x: a.velocity.x + dvx, y: a.velocity.y + dvy };
        } else {
            new_velocity = a.velocity;
        }
        let next = Agent { position: a.position, velocity: new_velocity, id: a.id };
        proof {
            assert(next == center_step(s0)[i as int]);
            assert(agent_ok(next, POS_LIMIT as int, VEL_CAP_ALIGN as int));
        }
        updated.push(next);
        i = i + 1;
    }
    store.agents = updated;
    proof {
        assert(store.agents@ =~= center_step(s0));
    }
}

/// Match each agent's velocity with its local flock: the second rule of a
/// tick.
pub fn align_squirrels(store: &mut AgentStore)
    requires
        old(store).agents@.len() <= MAX_AGENTS,
        agents_ok(old(store).agents@, POS_LIMIT as int, VEL_CAP_ALIGN as int),
    ensures
        final(store).agents@ == align_step(old(store).agents@),
        agents_ok(final(store).agents@, POS_LIMIT as int, VEL_CAP_SEPARATE as int),
{
    let ghost s0 = store.agents@;
    let n: usize = store.agents.len();
    let mut updated: Vec<Agent> = Vec::new();
    let mut i: usize = 0;
    while i < n
        invariant
            n == s0.len(),
            n <= MAX_AGENTS,
            store.agents@ == s0,
            agents_ok(s0, POS_LIMIT as int, VEL_CAP_ALIGN as int),
            i <= n,
            updated@.len() == i,
            forall|k: int| 0 <= k < i ==> #[trigger] updated@[k] == align_step(s0)[k],
            forall|k: int| 0 <= k < i ==> agent_ok(
                #[trigger] updated@[k],
                POS_LIMIT as int,
                VEL_CAP_SEPARATE as int,
            ),
        decreases n - i,
    {
        let a: Agent = store.agents[i];
        proof {
            assert(agent_ok(s0[i as int], POS_LIMIT as int, VEL_CAP_ALIGN as int));
        }
        let mut cnt: usize = 0;
        let mut svx: i64 = 0;
        let mut svy: i64 = 0;
        let mut j: usize = 0;
        while j < n
            invariant
                n == s0.len(),
                n <= MAX_AGENTS,
                store.agents@ == s0,
                agents_ok(s0, POS_LIMIT as int, VEL_CAP_ALIGN as int),
                i < n,
                a == s0[i as int],
                agent_ok(a, POS_LIMIT as int, VEL_CAP_ALIGN as int),
                j <= n,
                cnt == scan_count(s0.take(j as int), flock_sel(a.position)),
                svx == scan_sum(s0.take(j as int), flock_sel(a.position), vel_x_of()),
                svy == scan_sum(s0.take(j as int), flock_sel(a.position), vel_y_of()),
                0 <= cnt <= j,
                -(cnt * (VEL_CAP_ALIGN as int)) <= svx <= cnt * (VEL_CAP_ALIGN as int),
                -(cnt * (VEL_CAP_ALIGN as int)) <= svy <= cnt * (VEL_CAP_ALIGN as int),
            decreases n - j,
        {
            let b: Agent = store.agents[j];
            proof {
                assert(agent_ok(s0[j as int], POS_LIMIT as int, VEL_CAP_ALIGN as int));
                lemma_scan_step(s0, flock_sel(a.position), vel_x_of(), j as int);
                lemma_scan_step(s0, flock_sel(a.position), vel_y_of(), j as int);
            }
            if within_range_sq(a.position, b.position, FLOCKING_RANGE) {
                svx = svx + b.velocity.x;
                svy = svy + b.velocity.y;
                cnt = cnt + 1;
            }
            j = j + 1;
        }
        proof {
            assert(s0.take(n as int) =~= s0);
        }
        let new_velocity: Vec2;
        if cnt >= 2 {
            proof {
                lemma_div_t_bound(svx as int, cnt as int, VEL_CAP_ALIGN as int);
                lemma_div_t_bound(svy as int, cnt as int, VEL_CAP_ALIGN as int);
            }
            let mvx: i64 = div_trunc(svx, cnt as i64);
            let mvy: i64 = div_trunc(svy, cnt as i64);
            proof {
                lemma_div_t_bound(
                    (mvx - a.velocity.x) * (ALIGNMENT_NUM as int),
                    SCALE as int,
                    111_000_000,
                );
                lemma_div_t_bound(
                    (mvy - a.velocity.y) * (ALIGNMENT_NUM as int),
                    SCALE as int,
                    111_000_000,
                );
            }
            let dvx: i64 = div_trunc((mvx - a.velocity.x) * ALIGNMENT_NUM, SCALE);
            let dvy: i64 = div_trunc((mvy - a.velocity.y) * ALIGNMENT_NUM, SCALE);
            new_velocity = Vec2 { x: a.velocity.x + dvx, y: a.velocity.y + dvy };
        } else {
            new_velocity = a.velocity;
        }
        let next = Agent { position: a.position, velocity: new_velocity, id: a.id };
        proof {
            assert(next == align_step(s0)[i as int]);
            assert(agent_ok(next, POS_LIMIT as int, VEL_CAP_SEPARATE as int));
        }
        updated.push(next);
        i = i + 1;
    }
    store.agents = updated;
    proof {
        assert(store.agents@ =~= align_step(s0));
    }
}

/// Push each agent away from other agents crowding it: the third rule of a
/// tick. Unlike centering and alignment, the scan excludes the agent itself
/// (by id) and a single close neighbour already repels.
pub fn separate_squirrels(store: &mut AgentStore)
    requires
        old(store).agents@.len() <= MAX_AGENTS,
        agents_ok(old(store).agents@, POS_LIMIT as int, VEL_CAP_SEPARATE as int),
    ensures
        final(store).agents@ == separate_step(old(store).agents@),
        agents_ok(final(store).agents@, POS_LIMIT as int, VEL_CAP_REGULATE as int),
{
    let ghost s0 = store.agents@;
    let n: usize = store.agents.len();
    let mut updated: Vec<Agent> = Vec::new();
    let mut i: usize = 0;
    while i < n
        invariant
            n == s0.len(),
            n <= MAX_AGENTS,
            store.agents@ == s0,
            agents_ok(s0, POS_LIMIT as int, VEL_CAP_SEPARATE as int),
            i <= n,
            updated@.len() == i,
            forall|k: int| 0 <= k < i ==> #[trigger] updated@[k] == separate_step(s0)[k],
            forall|k: int| 0 <= k < i ==> agent_ok(
                #[trigger] updated@[k],
                POS_LIMIT as int,
                VEL_CAP_REGULATE as int,
            ),
        decreases n - i,
    {
        let a: Agent = store.agents[i];
        proof {
            assert(agent_ok(s0[i as int], POS_LIMIT as int, VEL_CAP_SEPARATE as int));
        }
        let mut ssx: i64 = 0;
        let mut ssy: i64 = 0;
        let mut j: usize = 0;
        while j < n
            invariant
                n == s0.len(),
                n <= MAX_AGENTS,
                store.agents@ == s0,
                agents_ok(s0, POS_LIMIT as int, VEL_CAP_SEPARATE as int),
                i < n,
                a == s0[i as int],
                agent_ok(a, POS_LIMIT as int, VEL_CAP_SEPARATE as int),
                j <= n,
                ssx == scan_sum(s0.take(j as int), sep_sel(a.position, a.id), offset_x_from(a.position)),
                ssy == scan_sum(s0.take(j as int), sep_sel(a.position, a.id), offset_y_from(a.position)),
                -(j * (SEPARATION_DISTANCE as int)) <= ssx <= j * (SEPARATION_DISTANCE as int),
                -(j * (SEPARATION_DISTANCE as int)) <= ssy <= j * (SEPARATION_DISTANCE as int),
            decreases n - j,
        {
            let b: Agent = store.agents[j];
            proof {
                assert(agent_ok(s0[j as int], POS_LIMIT as int, VEL_CAP_SEPARATE as int));
                lemma_scan_step(s0, sep_sel(a.position, a.id), offset_x_from(a.position), j as int);
                lemma_scan_step(s0, sep_sel(a.position, a.id), offset_y_from(a.position), j as int);
            }
            if b.id != a.id && within_range_sq(a.position, b.position, SEPARATION_DISTANCE) {
                let ox: i64 = a.position.x - b.position.x;
                let oy: i64 = a.position.y - b.position.y;
                proof {
                    assert(-30_000 <= ox <= 30_000) by (nonlinear_arith)
                        requires
                            ox * ox + oy * oy < 30_000 * 30_000,
                    ;
                    assert(-30_000 <= oy <= 30_000) by (nonlinear_arith)
                        requires
                            ox * ox + oy * oy < 30_000 * 30_000,
                    ;
                }
                ssx = ssx + ox;
                ssy = ssy + oy;
            }
            j = j + 1;
        }
        proof {
            assert(s0.take(n as int) =~= s0);
            lemma_div_t_bound(ssx * (SEPARATION_NUM as int), SCALE as int, 15_000_000);
            lemma_div_t_bound(ssy * (SEPARATION_NUM as int), SCALE as int, 15_000_000);
        }
        let dvx: i64 = div_trunc(ssx * SEPARATION_NUM, SCALE);
        let dvy: i64 = div_trunc(ssy * SEPARATION_NUM, SCALE);
        let new_velocity = Vec2 { x: a.velocity.x + dvx, y: a.velocity.y + dvy };
        let next = Agent { position: a.position, velocity: new_velocity, id: a.id };
        proof {
            assert(next == separate_step(s0)[i as int]);
            assert(agent_ok(next, POS_LIMIT as int, VEL_CAP_REGULATE as int));
        }
        updated.push(next);
        i = i + 1;
    }
    store.agents = updated;
    proof {
        assert(store.agents@ =~= separate_step(s0));
    }
}

} // verus!
