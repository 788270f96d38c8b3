//! The fixed-timestep simulation loop body.
//!
//! A tick runs the five rules in a fixed, order-sensitive pipeline —
//! centering, alignment, separation, regulation, integration — each rule
//! scanning the snapshot the previous rule left behind. The host refreshes
//! the bounds once per tick before calling in, and drives ticks at a fixed
//! cadence: simulated time advances by exactly one timestep per call,
//! decoupled from wall time.

use crate::agent::{agents_ok, Agent, AgentStore, lemma_agents_ok_weaken};
use crate::bounds::Bounds;
use crate::flock::{align_squirrels, align_step, center_squirrels, center_step, separate_squirrels, separate_step};
use crate::motion::{move_squirrels, move_step, regulate_step, regulate_velocities};
use crate::params::{
    MAX_AGENTS, POS_CAP_END, POS_LIMIT, VEL_CAP_CENTER, VEL_CAP_MOVE, VEL_TICK_LIMIT,
};
use vstd::prelude::*;

verus! {

/// The whole population after one tick: the five rules composed in their
/// fixed order.
pub open spec fn tick_step(s: Seq<Agent>, b: Bounds) -> Seq<Agent> {
    move_step(regulate_step(separate_step(align_step(center_step(s)))), b)
}

/// One fixed-timestep tick over the whole population.
///
/// The caps in the precondition are what keeps every intermediate product
/// inside an `i64`; a host that loops ticks re-checks them each time (a
/// tick may leave a coordinate slightly beyond `POS_LIMIT`, and velocities
/// are only softly regulated).
pub fn tick(store: &mut AgentStore, bounds: &Bounds)
    requires
        old(store).agents@.len() <= MAX_AGENTS,
        agents_ok(old(store).agents@, POS_LIMIT as int, VEL_TICK_LIMIT as int),
        0 <= bounds.half_width,
        0 <= bounds.half_height,
    ensures
        final(store).agents@ == tick_step(old(store).agents@, *bounds),
        final(store).agents@.len() == old(store).agents@.len(),
        agents_ok(final(store).agents@, POS_CAP_END as int, VEL_CAP_MOVE as int),
{
    proof {
        lemma_agents_ok_weaken(
            store.agents@,
            POS_LIMIT as int,
            VEL_TICK_LIMIT as int,
            POS_LIMIT as int,
            VEL_CAP_CENTER as int,
        );
    }
    center_squirrels(store);
    align_squirrels(store);
    separate_squirrels(store);
    regulate_velocities(store);
    move_squirrels(store, bounds);
}

} // verus!
