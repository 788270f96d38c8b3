//! Per-rule behaviour on small, hand-computed populations.

use tamf::agent::{Agent, AgentStore, Vec2};
use tamf::bounds::{update_bounds, Bounds};
use tamf::flock::{align_squirrels, center_squirrels, separate_squirrels};
use tamf::motion::{move_squirrels, regulate_velocities};

fn agent(px: i64, py: i64, vx: i64, vy: i64, id: u32) -> Agent {
    Agent { position: Vec2 { x: px, y: py }, velocity: Vec2 { x: vx, y: vy }, id }
}

#[test]
fn bounds_are_half_the_viewport() {
    let b = update_bounds(1_600_000, 900_000);
    assert_eq!(b.half_width, 800_000);
    assert_eq!(b.half_height, 450_000);
}

#[test]
fn bounds_of_missing_viewport_are_zero() {
    let b = update_bounds(-5, -7);
    assert_eq!(b.half_width, 0);
    assert_eq!(b.half_height, 0);
}

#[test]
fn bounds_truncate_odd_extents() {
    let b = update_bounds(5, 7);
    assert_eq!(b.half_width, 2);
    assert_eq!(b.half_height, 3);
}

#[test]
fn centering_pulls_toward_local_mean() {
    // three agents on a line, all within flocking range of each other:
    // the mean position is (10_000, 0), factor 0.005
    let mut store = AgentStore {
        agents: vec![
            agent(0, 0, 0, 0, 0),
            agent(10_000, 0, 0, 0, 1),
            agent(20_000, 0, 0, 0, 2),
        ],
    };
    center_squirrels(&mut store);
    assert_eq!(store.agents[0].velocity, Vec2 { x: 50, y: 0 });
    assert_eq!(store.agents[1].velocity, Vec2 { x: 0, y: 0 });
    assert_eq!(store.agents[2].velocity, Vec2 { x: -50, y: 0 });
    // positions and ids are untouched by the rule
    assert_eq!(store.agents[0].position, Vec2 { x: 0, y: 0 });
    assert_eq!(store.agents[2].id, 2);
}

#[test]
fn centering_alone_is_noop() {
    // a single agent is its own single neighbour: below the threshold of 2
    let mut store = AgentStore { agents: vec![agent(500, 600, 700, 800, 0)] };
    center_squirrels(&mut store);
    assert_eq!(store.agents[0].velocity, Vec2 { x: 700, y: 800 });
}

#[test]
fn centering_isolated_pair_is_noop() {
    // 300 units apart: beyond the flocking range of 200 units
    let mut store = AgentStore {
        agents: vec![agent(0, 0, 1000, 2000, 0), agent(300_000, 0, -3000, 4000, 1)],
    };
    center_squirrels(&mut store);
    assert_eq!(store.agents[0].velocity, Vec2 { x: 1000, y: 2000 });
    assert_eq!(store.agents[1].velocity, Vec2 { x: -3000, y: 4000 });
}

#[test]
fn flocking_range_is_strict() {
    // exactly 200 units apart: not strictly within range, so both stay
    // isolated and centering is a no-op
    let mut store = AgentStore {
        agents: vec![agent(0, 0, 1000, 0, 0), agent(200_000, 0, -1000, 0, 1)],
    };
    center_squirrels(&mut store);
    assert_eq!(store.agents[0].velocity, Vec2 { x: 1000, y: 0 });
    assert_eq!(store.agents[1].velocity, Vec2 { x: -1000, y: 0 });
}

#[test]
fn alignment_pulls_toward_mean_velocity() {
    let mut store = AgentStore {
        agents: vec![agent(0, 0, 100, 0, 0), agent(10_000, 0, 200, 0, 1)],
    };
    align_squirrels(&mut store);
    // mean velocity (150, 0), factor 0.05, truncating division
    assert_eq!(store.agents[0].velocity, Vec2 { x: 102, y: 0 });
    assert_eq!(store.agents[1].velocity, Vec2 { x: 198, y: 0 });
}

#[test]
fn alignment_isolated_pair_is_noop() {
    let mut store = AgentStore {
        agents: vec![agent(0, 0, 1000, 2000, 0), agent(300_000, 0, -3000, 4000, 1)],
    };
    align_squirrels(&mut store);
    assert_eq!(store.agents[0].velocity, Vec2 { x: 1000, y: 2000 });
    assert_eq!(store.agents[1].velocity, Vec2 { x: -3000, y: 4000 });
}

#[test]
fn separation_repels_close_pair() {
    // 10 units apart, inside the separation distance of 30 units: each
    // agent gains a velocity component pointing away from the other
    let mut store = AgentStore {
        agents: vec![agent(0, 0, 0, 0, 0), agent(10_000, 0, 0, 0, 1)],
    };
    separate_squirrels(&mut store);
    assert_eq!(store.agents[0].velocity, Vec2 { x: -500, y: 0 });
    assert_eq!(store.agents[1].velocity, Vec2 { x: 500, y: 0 });
}

#[test]
fn separation_grows_with_the_offset() {
    // the farther (but still close) pair is repelled harder: the impulse
    // is the offset scaled by 0.05
    let mut near = AgentStore {
        agents: vec![agent(0, 0, 0, 0, 0), agent(10_000, 0, 0, 0, 1)],
    };
    let mut far = AgentStore {
        agents: vec![agent(0, 0, 0, 0, 0), agent(20_000, 0, 0, 0, 1)],
    };
    separate_squirrels(&mut near);
    separate_squirrels(&mut far);
    assert_eq!(near.agents[0].velocity.x, -500);
    assert_eq!(far.agents[0].velocity.x, -1000);
    assert!(near.agents[0].velocity.x.abs() <= far.agents[0].velocity.x.abs());
}

#[test]
fn separation_distance_is_strict() {
    // exactly 30 units apart: no repulsion
    let mut store = AgentStore {
        agents: vec![agent(0, 0, 0, 0, 0), agent(30_000, 0, 0, 0, 1)],
    };
    separate_squirrels(&mut store);
    assert_eq!(store.agents[0].velocity, Vec2 { x: 0, y: 0 });
    assert_eq!(store.agents[1].velocity, Vec2 { x: 0, y: 0 });
}

#[test]
fn separation_excludes_same_id() {
    // the scan excludes agents sharing the scanner's id, however close
    let mut store = AgentStore {
        agents: vec![agent(0, 0, 0, 0, 7), agent(10_000, 0, 0, 0, 7)],
    };
    separate_squirrels(&mut store);
    assert_eq!(store.agents[0].velocity, Vec2 { x: 0, y: 0 });
    assert_eq!(store.agents[1].velocity, Vec2 { x: 0, y: 0 });
}

#[test]
fn regulation_leaves_the_band_alone() {
    let mut store = AgentStore {
        agents: vec![
            agent(0, 0, 600_000, 0, 0),
            // both band ends are inclusive
            agent(0, 0, 500_000, 0, 1),
            agent(0, 0, 800_000, 0, 2),
        ],
    };
    regulate_velocities(&mut store);
    assert_eq!(store.agents[0].velocity, Vec2 { x: 600_000, y: 0 });
    assert_eq!(store.agents[1].velocity, Vec2 { x: 500_000, y: 0 });
    assert_eq!(store.agents[2].velocity, Vec2 { x: 800_000, y: 0 });
}

#[test]
fn regulation_nudges_slow_agents_up() {
    let mut store = AgentStore { agents: vec![agent(0, 0, 400_000, 0, 0)] };
    regulate_velocities(&mut store);
    // 0.5% away from zero
    assert_eq!(store.agents[0].velocity, Vec2 { x: 402_000, y: 0 });
}

#[test]
fn regulation_nudges_fast_agents_down() {
    let mut store = AgentStore { agents: vec![agent(0, 0, 900_000, 0, 0)] };
    regulate_velocities(&mut store);
    // 0.5% toward zero
    assert_eq!(store.agents[0].velocity, Vec2 { x: 895_500, y: 0 });
}

#[test]
fn reflection_flips_outward_x_only() {
    let bounds = Bounds { half_width: 100_000, half_height: 100_000 };
    // just beyond the right edge, still moving right and up
    let mut store = AgentStore { agents: vec![agent(100_001, 0, 5_000, 3_000, 0)] };
    move_squirrels(&mut store, &bounds);
    // x velocity negated, y velocity untouched (the y check is the else
    // branch and does not run)
    assert_eq!(store.agents[0].velocity, Vec2 { x: -5_000, y: 3_000 });
    // then the position advances by one timestep of the reflected velocity
    assert_eq!(store.agents[0].position, Vec2 { x: 99_918, y: 50 });
}

#[test]
fn reflection_corner_reflects_one_axis_per_tick() {
    let bounds = Bounds { half_width: 100_000, half_height: 100_000 };
    // beyond both edges at once: only x reflects this tick
    let mut store = AgentStore { agents: vec![agent(100_060, 100_060, 6_000, 6_000, 0)] };
    move_squirrels(&mut store, &bounds);
    assert_eq!(store.agents[0].velocity, Vec2 { x: -6_000, y: 6_000 });
    // y reflects on the next tick (still beyond the top, still moving up)
    move_squirrels(&mut store, &bounds);
    assert_eq!(store.agents[0].velocity, Vec2 { x: -6_000, y: -6_000 });
}

#[test]
fn frozen_velocity_leaves_position_fixed() {
    let bounds = Bounds { half_width: 100_000, half_height: 100_000 };
    let mut store = AgentStore { agents: vec![agent(5_000, 7_000, 0, 0, 0)] };
    for _ in 0..100 {
        move_squirrels(&mut store, &bounds);
    }
    assert_eq!(store.agents[0].position, Vec2 { x: 5_000, y: 7_000 });
    assert_eq!(store.agents[0].velocity, Vec2 { x: 0, y: 0 });
}
