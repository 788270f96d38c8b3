//! Population-wide laws of the rules, stated and proved over the same spec
//! functions the executable contracts use.

use crate::agent::{Agent, Vec2};
use crate::bounds::Bounds;
use crate::flock::{
    align_step, alignment_vel_x, alignment_vel_y, center_step, centering_vel_x, centering_vel_y,
    flock_count, flock_sel, in_flock_range, in_separation_range, offset_x_from, offset_y_from,
    sep_sel, separate_step, separation_vel_x, separation_vel_y,
};
use crate::math::{abs_i, div_t, lemma_div_t_abs, lemma_div_t_ordered};
use crate::motion::{move_step, moved_agent, regulate_step, regulated_velocity};
use crate::params::{HIGH_SPEED, LOW_SPEED, SCALE, SEPARATION_NUM, TICKS_PER_SECOND};
use crate::scan::{lemma_scan_count_single, scan_sum};
use crate::sim::tick_step;
use vstd::prelude::*;

verus! {

/// An isolated agent — one with no other agent strictly within
/// `FLOCKING_RANGE` of it — is left untouched by one pass of centering and
/// by one pass of alignment: it is its own single neighbour, and both rules
/// are no-ops below two neighbours.
pub proof fn lemma_isolated_agent_flocking_noop(s: Seq<Agent>, i: int)
    requires
        0 <= i < s.len(),
        forall|j: int| 0 <= j < s.len() && j != i ==> !in_flock_range(
            s[i].position,
            (#[trigger] s[j]).position,
        ),
    ensures
        centering_vel_x(s, s[i]) == s[i].velocity.x,
        centering_vel_y(s, s[i]) == s[i].velocity.y,
        alignment_vel_x(s, s[i]) == s[i].velocity.x,
        alignment_vel_y(s, s[i]) == s[i].velocity.y,
        center_step(s)[i] == s[i],
        align_step(s)[i] == s[i],
{
    let sel = flock_sel(s[i].position);
    assert(in_flock_range(s[i].position, s[i].position));
    assert(sel(s[i]));
    assert forall|j: int| 0 <= j < s.len() && j != i implies !sel(#[trigger] s[j]) by {
        assert(!in_flock_range(s[i].position, s[j].position));
    }
    lemma_scan_count_single(s, sel, i);
    assert(flock_count(s, s[i].position) == 1);
}

/// In a population of exactly two agents with distinct ids standing
/// strictly within `SEPARATION_DISTANCE`, the separation pass moves the
/// first agent's velocity by exactly the offset away from the other, scaled
/// by `SEPARATION_NUM / SCALE` with truncating division.
pub proof fn lemma_separation_pair_repulsion(a: Agent, b: Agent)
    requires
        a.id != b.id,
        in_separation_range(a.position, b.position),
    ensures
        separation_vel_x(seq![a, b], a) == a.velocity.x + div_t(
            (a.position.x - b.position.x) * SEPARATION_NUM,
            SCALE as int,
        ),
        separation_vel_y(seq![a, b], a) == a.velocity.y + div_t(
            (a.position.y - b.position.y) * SEPARATION_NUM,
            SCALE as int,
        ),
{
    let s = seq![a, b];
    let sel = sep_sel(a.position, a.id);
    let fx = offset_x_from(a.position);
    let fy = offset_y_from(a.position);
    assert(!sel(a));
    assert(sel(b));
    assert(s.last() == b);
    assert(s.drop_last() =~= seq![a]);
    assert(seq![a].last() == a);
    assert(seq![a].drop_last() =~= Seq::<Agent>::empty());
    assert(scan_sum(Seq::<Agent>::empty(), sel, fx) == 0);
    assert(scan_sum(Seq::<Agent>::empty(), sel, fy) == 0);
    assert(scan_sum(seq![a], sel, fx) == 0);
    assert(scan_sum(seq![a], sel, fy) == 0);
    assert(scan_sum(s, sel, fx) == fx(b));
    assert(scan_sum(s, sel, fy) == fy(b));
}

/// For two-agent populations within separation range, the repulsion scales
/// with the offset: a pair whose offset components are no larger in
/// magnitude receives, component for component, a repulsion of no larger
/// magnitude. (The nearer pair is never repelled harder than the farther
/// one: the impulse grows with the distance, up to truncation.)
pub proof fn lemma_separation_pair_monotone(a1: Agent, b1: Agent, a2: Agent, b2: Agent)
    requires
        a1.id != b1.id,
        a2.id != b2.id,
        in_separation_range(a1.position, b1.position),
        in_separation_range(a2.position, b2.position),
        abs_i(a1.position.x - b1.position.x) <= abs_i(a2.position.x - b2.position.x),
        abs_i(a1.position.y - b1.position.y) <= abs_i(a2.position.y - b2.position.y),
    ensures
        abs_i(separation_vel_x(seq![a1, b1], a1) - a1.velocity.x) <= abs_i(
            separation_vel_x(seq![a2, b2], a2) - a2.velocity.x,
        ),
        abs_i(separation_vel_y(seq![a1, b1], a1) - a1.velocity.y) <= abs_i(
            separation_vel_y(seq![a2, b2], a2) - a2.velocity.y,
        ),
{
    lemma_separation_pair_repulsion(a1, b1);
    lemma_separation_pair_repulsion(a2, b2);
    let d1x = a1.position.x - b1.position.x;
    let d1y = a1.position.y - b1.position.y;
    let d2x = a2.position.x - b2.position.x;
    let d2y = a2.position.y - b2.position.y;
    lemma_offset_scaled_monotone(d1x, d2x);
    lemma_offset_scaled_monotone(d1y, d2y);
}

/// Scaling by `SEPARATION_NUM / SCALE` with truncating division is
/// monotone in the offset's magnitude.
proof fn lemma_offset_scaled_monotone(d1: int, d2: int)
    requires
        abs_i(d1) <= abs_i(d2),
    ensures
        abs_i(div_t(d1 * SEPARATION_NUM, SCALE as int)) <= abs_i(
            div_t(d2 * SEPARATION_NUM, SCALE as int),
        ),
{
    lemma_div_t_abs(d1 * SEPARATION_NUM, SCALE as int);
    lemma_div_t_abs(d2 * SEPARATION_NUM, SCALE as int);
    assert(abs_i(d1 * SEPARATION_NUM) == abs_i(d1) * SEPARATION_NUM) by (nonlinear_arith);
    assert(abs_i(d2 * SEPARATION_NUM) == abs_i(d2) * SEPARATION_NUM) by (nonlinear_arith);
    assert(abs_i(d1) * SEPARATION_NUM <= abs_i(d2) * SEPARATION_NUM) by (nonlinear_arith)
        requires
            abs_i(d1) <= abs_i(d2),
    ;
    lemma_div_t_ordered(abs_i(d1) * SEPARATION_NUM, abs_i(d2) * SEPARATION_NUM, SCALE as int);
}

/// An agent whose speed already lies in the regulation band — ends
/// included — leaves the regulation pass with direction and magnitude
/// untouched: its velocity is returned identically.
pub proof fn lemma_regulation_band_noop(v: Vec2)
    requires
        LOW_SPEED * LOW_SPEED <= v.x * v.x + v.y * v.y <= HIGH_SPEED * HIGH_SPEED,
    ensures
        regulated_velocity(v) == v,
{
}

/// An agent beyond the positive x extent and still moving outward has its
/// x velocity negated by the integration step, its y velocity untouched
/// (the y check sits in the `else` branch and does not run).
pub proof fn lemma_boundary_reflection(a: Agent, b: Bounds)
    requires
        a.position.x > b.half_width,
        a.velocity.x > 0,
    ensures
        moved_agent(a, b).velocity.x == -a.velocity.x,
        moved_agent(a, b).velocity.y == a.velocity.y,
        moved_agent(a, b).velocity.x < 0,
{
}

/// Positions are mutated by the integrator alone: the four velocity rules
/// return every agent exactly where it stood.
pub proof fn lemma_only_integration_moves(s: Seq<Agent>, i: int)
    requires
        0 <= i < s.len(),
    ensures
        center_step(s)[i].position == s[i].position,
        align_step(s)[i].position == s[i].position,
        separate_step(s)[i].position == s[i].position,
        regulate_step(s)[i].position == s[i].position,
{
}

/// A tick never spawns, drops, or renames an agent: the population size is
/// preserved and every agent keeps the id it was created with.
pub proof fn lemma_tick_preserves_ids(s: Seq<Agent>, b: Bounds, i: int)
    requires
        0 <= i < s.len(),
    ensures
        tick_step(s, b).len() == s.len(),
        tick_step(s, b)[i].id == s[i].id,
{
    let s1 = center_step(s);
    let s2 = align_step(s1);
    let s3 = separate_step(s2);
    let s4 = regulate_step(s3);
    assert(s1[i].id == s[i].id);
    assert(s2[i].id == s1[i].id);
    assert(s3[i].id == s2[i].id);
    assert(s4[i].id == s3[i].id);
    assert(move_step(s4, b)[i].id == s4[i].id);
}

/// Iterated integration steps.
pub open spec fn moved_agent_n(a: Agent, b: Bounds, k: nat) -> Agent
    decreases k,
{
    if k == 0 {
        a
    } else {
        moved_agent(moved_agent_n(a, b, (k - 1) as nat), b)
    }
}

/// With the velocity frozen at exactly zero, reflection never triggers and
/// the position is a fixed point of integration: any number of ticks of
/// the integrator leaves the agent exactly where it stands.
pub proof fn lemma_frozen_velocity_fixpoint(a: Agent, b: Bounds, k: nat)
    requires
        a.velocity.x == 0,
        a.velocity.y == 0,
    ensures
        moved_agent_n(a, b, k) == a,
    decreases k,
{
    if k > 0 {
        lemma_frozen_velocity_fixpoint(a, b, (k - 1) as nat);
        assert(div_t(0, TICKS_PER_SECOND as int) == 0);
    }
}

} // verus!
