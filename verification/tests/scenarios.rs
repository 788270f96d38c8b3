//! End-to-end scenarios: spawning, full ticks, and the crossing scenario.

use tamf::agent::{Agent, AgentStore, Vec2};
use tamf::bounds::{update_bounds, Bounds};
use tamf::motion::move_squirrels;
use tamf::params::{SPEED_MAX, SPEED_MIN};
use tamf::sim::tick;
use tamf::spawn::spawn_squirrels;

#[test]
fn spawned_agents_have_in_band_nonzero_speed() {
    let bounds = update_bounds(200_000, 200_000);
    let store = spawn_squirrels(100, &bounds);
    assert_eq!(store.len(), 100);
    assert_eq!(store.get(7).id, 7);
    for (i, a) in store.agents.iter().enumerate() {
        assert_eq!(a.id, i as u32);
        assert!(-bounds.half_width <= a.position.x && a.position.x <= bounds.half_width);
        assert!(-bounds.half_height <= a.position.y && a.position.y <= bounds.half_height);
        assert!(a.velocity.x != 0 || a.velocity.y != 0);
        let sq = a.velocity.x * a.velocity.x + a.velocity.y * a.velocity.y;
        assert!(SPEED_MIN * SPEED_MIN <= sq && sq <= SPEED_MAX * SPEED_MAX);
    }
}

#[test]
fn spawning_into_zero_bounds_places_at_origin() {
    let bounds = update_bounds(0, 0);
    let store = spawn_squirrels(3, &bounds);
    assert_eq!(store.agents.len(), 3);
    for a in store.agents.iter() {
        assert_eq!(a.position, Vec2 { x: 0, y: 0 });
        assert!(a.velocity.x != 0 || a.velocity.y != 0);
    }
}

#[test]
fn one_second_of_ticks_reaches_the_far_edge() {
    // one agent, bounds (100, 100), start at the origin moving right at
    // 100 units per second, integration only
    let bounds = Bounds { half_width: 100_000, half_height: 100_000 };
    let mut store = AgentStore {
        agents: vec![Agent {
            position: Vec2 { x: 0, y: 0 },
            velocity: Vec2 { x: 100_000, y: 0 },
            id: 0,
        }],
    };
    for _ in 0..60 {
        move_squirrels(&mut store, &bounds);
    }
    // after exactly one second: x = 60 * trunc(100_000 / 60) = 99_960,
    // i.e. 100 units up to truncation
    assert_eq!(store.agents[0].position.x, 99_960);
    assert!((store.agents[0].position.x - 100_000).abs() <= 60);
    assert_eq!(store.agents[0].velocity.x, 100_000);
    // the next tick crosses the edge...
    move_squirrels(&mut store, &bounds);
    assert_eq!(store.agents[0].position.x, 101_626);
    assert_eq!(store.agents[0].velocity.x, 100_000);
    // ...and the tick after that reflects: velocity.x flips sign
    move_squirrels(&mut store, &bounds);
    assert_eq!(store.agents[0].velocity.x, -100_000);
    assert_eq!(store.agents[0].position.x, 99_960);
}

#[test]
fn close_pair_gains_outward_velocity_after_one_tick() {
    // two agents 10 units apart (inside the separation distance of 30):
    // after one full tick each velocity has gained a component pointing
    // away from the other agent
    let bounds = Bounds { half_width: 100_000, half_height: 100_000 };
    let mut store = AgentStore {
        agents: vec![
            Agent { position: Vec2 { x: 0, y: 0 }, velocity: Vec2 { x: 0, y: 0 }, id: 0 },
            Agent { position: Vec2 { x: 10_000, y: 0 }, velocity: Vec2 { x: 0, y: 0 }, id: 1 },
        ],
    };
    tick(&mut store, &bounds);
    assert!(store.agents[0].velocity.x < 0);
    assert!(store.agents[1].velocity.x > 0);
}

#[test]
fn full_tick_runs_the_five_rules_in_order() {
    // the same pair, every intermediate value computed by hand:
    // centering:  means (5_000, 0); velocities become (25, 0) / (-25, 0)
    // alignment:  mean velocity (0, 0); deltas -1 / +1 -> (24, 0) / (-24, 0)
    // separation: offsets -10_000 / +10_000 scaled by 0.05 -> (-476, 0) / (476, 0)
    // regulation: far below the band, +0.5% away from zero -> (-478, 0) / (478, 0)
    // move:       positions advance by velocity / 60, no reflection
    let bounds = Bounds { half_width: 100_000, half_height: 100_000 };
    let mut store = AgentStore {
        agents: vec![
            Agent { position: Vec2 { x: 0, y: 0 }, velocity: Vec2 { x: 0, y: 0 }, id: 0 },
            Agent { position: Vec2 { x: 10_000, y: 0 }, velocity: Vec2 { x: 0, y: 0 }, id: 1 },
        ],
    };
    tick(&mut store, &bounds);
    assert_eq!(store.agents[0].velocity, Vec2 { x: -478, y: 0 });
    assert_eq!(store.agents[1].velocity, Vec2 { x: 478, y: 0 });
    assert_eq!(store.agents[0].position, Vec2 { x: -7, y: 0 });
    assert_eq!(store.agents[1].position, Vec2 { x: 10_007, y: 0 });
    assert_eq!(store.agents[0].id, 0);
    assert_eq!(store.agents[1].id, 1);
}

#[test]
fn spawned_population_survives_many_ticks() {
    let bounds = update_bounds(1_600_000, 900_000);
    let mut store = spawn_squirrels(50, &bounds);
    for _ in 0..120 {
        tick(&mut store, &bounds);
    }
    assert_eq!(store.agents.len(), 50);
    for (i, a) in store.agents.iter().enumerate() {
        assert_eq!(a.id, i as u32);
        // nothing teleports: two seconds at bounded speed stays well
        // inside a loose envelope around the viewport
        assert!(a.position.x.abs() < 2_000_000);
        assert!(a.position.y.abs() < 2_000_000);
    }
}
