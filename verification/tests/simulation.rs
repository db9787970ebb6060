//! End-to-end checks of the flocking core on concrete stores. All
//! coordinates are fixed-point thousandths of a world unit.

use boids::agent::{Agent, AgentStore};
use boids::avoid::{boid_avoidance, calc_avoidance};
use boids::flocking::{boid_find_neighbours, find_neighbours, calc_alignment, calc_cohesion};
use boids::motion::boid_movement_system;
use boids::seek::boid_seek_system;
use boids::spawn::{spawn_boid, spawn_boids};
use boids::target::{set_boid_target, set_random_boid_target};
use boids::tick::simulation_tick;
use boids::vec2::{Vec2, distance_sq, scale_to_length};

fn v(x: i64, y: i64) -> Vec2 {
    Vec2 { x, y }
}

fn agent(id: u64, pos: Vec2, vel: Vec2, target: Option<Vec2>) -> Agent {
    Agent {
        id,
        position: pos,
        velocity: vel,
        target,
        is_boid: true,
        is_seeking: true,
    }
}

fn store_of(agents: Vec<Agent>) -> AgentStore {
    AgentStore { agents }
}

#[test]
fn far_pair_not_neighbours() {
    // 400 units apart: beyond the 300-unit perception radius.
    let store = store_of(vec![
        agent(0, v(0, 0), v(0, 0), None),
        agent(1, v(400_000, 0), v(0, 0), None),
    ]);
    let n0 = find_neighbours(&store.agents, 0);
    let n1 = find_neighbours(&store.agents, 1);
    assert_eq!(n0.0.len(), 0);
    assert_eq!(n1.0.len(), 0);
}

#[test]
fn close_pair_lists_each_other() {
    // 10 units apart: well within the perception radius.
    let store = store_of(vec![
        agent(0, v(0, 0), v(0, 0), None),
        agent(1, v(10_000, 0), v(0, 0), None),
    ]);
    let n0 = find_neighbours(&store.agents, 0);
    let n1 = find_neighbours(&store.agents, 1);
    assert_eq!(n0.0.len(), 1);
    assert_eq!(n0.0[0].id, 1);
    assert_eq!(n0.0[0].position, v(10_000, 0));
    assert_eq!(n1.0.len(), 1);
    assert_eq!(n1.0[0].id, 0);
}

#[test]
fn boundary_distance_is_inclusive() {
    // Exactly 300 units apart still counts as a neighbour.
    let store = store_of(vec![
        agent(0, v(0, 0), v(0, 0), None),
        agent(1, v(300_000, 0), v(0, 0), None),
    ]);
    let n0 = find_neighbours(&store.agents, 0);
    assert_eq!(n0.0.len(), 1);
}

#[test]
fn empty_neighbours_leave_velocity_unchanged() {
    let mut store = store_of(vec![agent(0, v(0, 0), v(5_000, 7_000), None)]);
    boid_find_neighbours(&mut store);
    assert_eq!(store.agents[0].velocity, v(5_000, 7_000));
}

#[test]
fn alignment_and_cohesion_on_close_pair() {
    // Stationary neighbours: alignment averages zero velocities and
    // contributes nothing; cohesion pulls one unit toward the other.
    let mut store = store_of(vec![
        agent(0, v(0, 0), v(0, 0), None),
        agent(1, v(10_000, 0), v(0, 0), None),
    ]);
    boid_find_neighbours(&mut store);
    assert_eq!(store.agents[0].velocity, v(1_000, 0));
    assert_eq!(store.agents[1].velocity, v(-1_000, 0));
    // Positions are untouched by the steering stage.
    assert_eq!(store.agents[0].position, v(0, 0));
    assert_eq!(store.agents[1].position, v(10_000, 0));
}

#[test]
fn alignment_follows_neighbour_velocity() {
    // A still agent next to one moving along y picks up a unit vector
    // from alignment; cohesion adds a unit vector toward the mover.
    let mut store = store_of(vec![
        agent(0, v(0, 0), v(0, 0), None),
        agent(1, v(10_000, 0), v(0, 9_000), None),
    ]);
    let ns = find_neighbours(&store.agents, 0);
    let align = calc_alignment(&ns);
    assert_eq!(align, v(0, 1_000));
    let cohesion = calc_cohesion(&ns, store.agents[0].position);
    assert_eq!(cohesion, v(1_000, 0));
    boid_find_neighbours(&mut store);
    assert_eq!(store.agents[0].velocity, v(1_000, 1_000));
}

#[test]
fn avoidance_coincident_positions_bounded() {
    // Coincident agents get a random tie-breaking push: finite by
    // construction and at most 25 units per axis.
    for _ in 0..50 {
        let r = calc_avoidance(v(7_000, -3_000), v(7_000, -3_000));
        assert!(r.x >= -25_000 && r.x <= 25_000);
        assert!(r.y >= -25_000 && r.y <= 25_000);
    }
}

#[test]
fn avoidance_direction_and_magnitude() {
    // The push on the first agent points away from the second with
    // magnitude exactly 25 units on an axis-aligned pair.
    let r = calc_avoidance(v(0, 0), v(10_000, 0));
    assert_eq!(r, v(-25_000, 0));
    // A 3-4-5 direction keeps the exact magnitude too.
    let r = calc_avoidance(v(0, 0), v(30_000, 40_000));
    assert_eq!(r, v(-15_000, -20_000));
    assert_eq!(r.x * r.x + r.y * r.y, 25_000 * 25_000);
}

#[test]
fn avoidance_pushes_first_of_pair_only() {
    let mut store = store_of(vec![
        agent(0, v(0, 0), v(0, 0), None),
        agent(1, v(10_000, 0), v(0, 0), None),
    ]);
    boid_avoidance(&mut store);
    assert_eq!(store.agents[0].velocity, v(-25_000, 0));
    assert_eq!(store.agents[1].velocity, v(0, 0));
}

#[test]
fn rest_band_snaps_velocity_to_zero() {
    // Both components within [-0.1, 0.1] units: one tick brings the
    // agent exactly to rest (after it still takes its step).
    let mut store = store_of(vec![agent(0, v(0, 0), v(100, -100), None)]);
    boid_movement_system(&mut store);
    assert_eq!(store.agents[0].velocity, v(0, 0));
}

#[test]
fn decay_is_ten_percent_per_tick() {
    // A velocity of 1000 units along x decays to 900 units.
    let mut store = store_of(vec![agent(0, v(0, 0), v(1_000_000, 0), None)]);
    boid_movement_system(&mut store);
    assert_eq!(store.agents[0].velocity, v(900_000, 0));
    // The translation used the pre-decay direction: exactly 2 units.
    assert_eq!(store.agents[0].position, v(2_000, 0));
}

#[test]
fn zero_velocity_skips_translation_and_damping() {
    let mut store = store_of(vec![agent(0, v(123, 456), v(0, 0), None)]);
    boid_movement_system(&mut store);
    assert_eq!(store.agents[0].position, v(123, 456));
    assert_eq!(store.agents[0].velocity, v(0, 0));
}

#[test]
fn translation_step_has_fixed_magnitude() {
    // Axis-aligned velocity: the step is exactly 2 units.
    let step = scale_to_length(v(123_456, 0), 2_000);
    assert_eq!(step, v(2_000, 0));
    // A 3-4-5 direction gives an exact magnitude too.
    let step = scale_to_length(v(3_000, 4_000), 2_000);
    assert_eq!(step, v(1_200, 1_600));
    assert_eq!(step.x * step.x + step.y * step.y, 2_000 * 2_000);
    // And the integrator applies exactly that step.
    let mut store = store_of(vec![agent(0, v(0, 0), v(3_000, 4_000), None)]);
    boid_movement_system(&mut store);
    assert_eq!(store.agents[0].position, v(1_200, 1_600));
}

#[test]
fn seek_pulls_toward_target() {
    // Position (0,0), target 3-4-5 at (30,40): the pull is 25 units
    // toward the target, split (15, 20).
    let mut store = store_of(vec![agent(0, v(0, 0), v(0, 0), Some(v(30_000, 40_000)))]);
    boid_seek_system(&mut store);
    assert_eq!(store.agents[0].velocity, v(15_000, 20_000));
}

#[test]
fn seek_without_target_is_noop() {
    let mut store = store_of(vec![agent(0, v(0, 0), v(500, 600), None)]);
    boid_seek_system(&mut store);
    assert_eq!(store.agents[0].velocity, v(500, 600));
}

#[test]
fn arrival_at_24_9_units_retargets() {
    let mut store = store_of(vec![agent(0, v(0, 0), v(0, 0), Some(v(24_900, 0)))]);
    set_random_boid_target(&mut store);
    let t = store.agents[0].target.expect("arrived agent must get a fresh target");
    assert!(t.x >= -300_000 && t.x <= 300_000);
    assert!(t.y >= -300_000 && t.y <= 300_000);
}

#[test]
fn distance_25_1_units_keeps_target() {
    let mut store = store_of(vec![agent(0, v(0, 0), v(0, 0), Some(v(25_100, 0)))]);
    set_random_boid_target(&mut store);
    assert_eq!(store.agents[0].target, Some(v(25_100, 0)));
}

#[test]
fn arrival_boundary_is_inclusive() {
    // Exactly 25 units away counts as arrived.
    let mut store = store_of(vec![agent(0, v(0, 0), v(0, 0), Some(v(25_000, 0)))]);
    set_random_boid_target(&mut store);
    let t = store.agents[0].target.expect("agent at the boundary must get a fresh target");
    assert!(t.x >= -300_000 && t.x <= 300_000);
    assert!(t.y >= -300_000 && t.y <= 300_000);
}

#[test]
fn command_retargets_every_agent() {
    let mut store = store_of(vec![
        agent(0, v(0, 0), v(0, 0), None),
        agent(1, v(100_000, 0), v(0, 0), Some(v(-7_000, 8_000))),
        agent(2, v(-50_000, 60_000), v(1, 2), Some(v(50_000, 50_000))),
    ]);
    set_boid_target(&mut store, v(50_000, 50_000));
    for a in store.agents.iter() {
        assert_eq!(a.target, Some(v(50_000, 50_000)));
    }
}

#[test]
fn spawn_populates_the_store() {
    let mut store = AgentStore::new();
    spawn_boids(&mut store, 6);
    assert_eq!(store.len(), 6);
    for (i, a) in store.agents.iter().enumerate() {
        assert_eq!(a.id, i as u64);
        assert!(a.position.x >= -500_000 && a.position.x <= 500_000);
        assert!(a.position.y >= -500_000 && a.position.y <= 500_000);
        assert_eq!(a.velocity, v(0, 0));
        assert!(a.is_boid && a.is_seeking);
        let t = a.target.expect("fresh boids have a target");
        assert!(t.x >= -300_000 && t.x <= 300_000);
        assert!(t.y >= -300_000 && t.y <= 300_000);
    }
}

#[test]
fn spawn_single_boid_at_given_position() {
    let mut store = AgentStore::new();
    spawn_boid(&mut store, v(250_000, -250_000));
    assert_eq!(store.len(), 1);
    assert_eq!(store.agents[0].position, v(250_000, -250_000));
}

#[test]
fn tick_with_command_overrides_all_targets() {
    let mut store = store_of(vec![
        agent(0, v(0, 0), v(0, 0), Some(v(1, 2))),
        agent(1, v(400_000, 0), v(0, 0), None),
    ]);
    simulation_tick(&mut store, Some(v(50_000, 50_000)));
    assert_eq!(store.agents[0].target, Some(v(50_000, 50_000)));
    assert_eq!(store.agents[1].target, Some(v(50_000, 50_000)));
}

#[test]
fn two_stationary_close_agents_end_to_end() {
    // Two agents at (0,0) and (10,0), both stationary, no targets.
    // They see each other; cohesion pulls them together one unit and
    // avoidance pushes the first agent 25 units away (negative x).
    let mut store = store_of(vec![
        agent(0, v(0, 0), v(0, 0), None),
        agent(1, v(10_000, 0), v(0, 0), None),
    ]);
    simulation_tick(&mut store, None);
    // Agent 0: cohesion (1000, 0), then avoidance (-25000, 0):
    // velocity (-24000, 0), so it steps 2 units along -x and then
    // decays to (-21600, 0).
    assert_eq!(store.agents[0].position, v(-2_000, 0));
    assert_eq!(store.agents[0].velocity, v(-21_600, 0));
    // Agent 1: cohesion (-1000, 0) only; steps 2 units along -x and
    // decays to (-900, 0).
    assert_eq!(store.agents[1].position, v(8_000, 0));
    assert_eq!(store.agents[1].velocity, v(-900, 0));
}

#[test]
fn distance_sq_is_exact() {
    assert_eq!(distance_sq(v(0, 0), v(3, 4)), 25);
    assert_eq!(distance_sq(v(-1_000, 2_000), v(2_000, -2_000)), 3_000 * 3_000 + 4_000 * 4_000);
}

#[test]
fn positions_snapshot_matches_store() {
    let store = store_of(vec![
        agent(0, v(1, 2), v(0, 0), None),
        agent(1, v(3, 4), v(0, 0), None),
    ]);
    let ps = store.positions();
    assert_eq!(ps, vec![v(1, 2), v(3, 4)]);
}

#[test]
fn seek_on_own_target_is_noop() {
    // Standing exactly on the target: the direction is degenerate and
    // seeking contributes nothing.
    let mut store = store_of(vec![agent(0, v(7_000, 7_000), v(300, 400), Some(v(7_000, 7_000)))]);
    boid_seek_system(&mut store);
    assert_eq!(store.agents[0].velocity, v(300, 400));
}

#[test]
fn tick_keeps_ids_and_flags() {
    let mut store = AgentStore::new();
    spawn_boids(&mut store, 4);
    for _ in 0..10 {
        simulation_tick(&mut store, None);
    }
    assert_eq!(store.len(), 4);
    for (i, a) in store.agents.iter().enumerate() {
        assert_eq!(a.id, i as u64);
        assert!(a.is_boid && a.is_seeking);
    }
}

#[test]
fn arrival_retargets_regardless_of_flags() {
    // The arrival policy applies to every agent with a target, not
    // just those with the capability flags set.
    let mut store = store_of(vec![Agent {
        id: 0,
        position: v(0, 0),
        velocity: v(0, 0),
        target: Some(v(10_000, 0)),
        is_boid: false,
        is_seeking: false,
    }]);
    set_random_boid_target(&mut store);
    let t = store.agents[0].target.expect("arrived agent must get a fresh target");
    assert!(t.x >= -300_000 && t.x <= 300_000);
    assert!(t.y >= -300_000 && t.y <= 300_000);
}
