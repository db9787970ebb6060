//! One simulation tick, in the fixed stage order: assign targets
//! (a command point for every agent, or arrival-driven random
//! retargeting), rebuild neighbour lists and apply alignment and
//! cohesion, apply pairwise avoidance, apply seeking, and integrate
//! motion. Well-formedness of the store is preserved, so ticks chain.

use vstd::prelude::*;
use crate::vec2::{Vec2, vec_within, abs_i, POS_LIMIT, POS_HEADROOM, VEL_LIMIT, SCALE,
    SEEK_PULL, MOVE_SPEED, COMP_LIMIT};
use crate::agent::{Agent, AgentStore, agent_ok, store_wf, positions_within,
    velocities_within, targets_within, same_but_target, same_but_velocity, same_but_motion};
use crate::target::{set_boid_target, set_random_boid_target, targets_assigned};
use crate::flocking::{boid_find_neighbours, flocking_applied};
use crate::avoid::{boid_avoidance, avoidance_applied, AVOID_TOTAL_MAX, AVOID_VEL_LIMIT};
use crate::seek::{boid_seek_system, seek_applied, SEEK_VEL_LIMIT};
use crate::motion::{boid_movement_system, motion_applied, DAMP_INTO_LIMIT};

verus! {

/// One tick decomposes into the five stage outcomes, in order:
/// target assignment (`s1`), alignment and cohesion (`s2`), pairwise
/// avoidance (`s3`), seeking (`s4`), and motion integration (`post`).
pub open spec fn tick_stages(
    pre: Seq<Agent>,
    s1: Seq<Agent>,
    s2: Seq<Agent>,
    s3: Seq<Agent>,
    s4: Seq<Agent>,
    post: Seq<Agent>,
    command: Option<Vec2>,
) -> bool {
    &&& targets_assigned(pre, s1, command)
    &&& flocking_applied(s1, s2)
    &&& avoidance_applied(s2, s3)
    &&& seek_applied(s3, s4)
    &&& motion_applied(s4, post)
}

/// Run one full tick over the store: the five stages in their fixed
/// order, as `tick_stages` states — with `command` present, that point
/// becomes every agent's target; without it, agents that have arrived
/// at their target are retargeted at random; then alignment and
/// cohesion, avoidance, seeking, and motion. The store stays
/// well-formed, ids and capability flags are untouched, and every
/// position moves at most one step.
pub fn simulation_tick(store: &mut AgentStore, command: Option<Vec2>)
    requires
        store_wf(old(store).agents@),
        positions_within(old(store).agents@, POS_LIMIT as int),
        match command {
            Some(p) => vec_within(p, POS_LIMIT as int),
            None => true,
        },
    ensures
        exists|s1: Seq<Agent>, s2: Seq<Agent>, s3: Seq<Agent>, s4: Seq<Agent>|
            tick_stages(old(store).agents@, s1, s2, s3, s4, final(store).agents@, command),
        final(store).agents@.len() == old(store).agents@.len(),
        store_wf(final(store).agents@),
        positions_within(final(store).agents@, POS_HEADROOM as int),
        forall|i: int| 0 <= i < old(store).agents@.len() ==> {
            let a = old(store).agents@[i];
            let b = #[trigger] final(store).agents@[i];
            &&& b.id == a.id
            &&& b.is_boid == a.is_boid
            &&& b.is_seeking == a.is_seeking
            &&& abs_i(b.position.x - a.position.x) <= MOVE_SPEED
            &&& abs_i(b.position.y - a.position.y) <= MOVE_SPEED
        },
        match command {
            Some(p) => forall|i: int| 0 <= i < final(store).agents@.len() ==>
                (#[trigger] final(store).agents@[i]).target == Some(p),
            None => true,
        },
{
    let ghost s0 = store.agents@;
    match command {
        Some(p) => set_boid_target(store, p),
        None => set_random_boid_target(store),
    }
    let ghost s1 = store.agents@;
    proof {
        assert(store_wf(s1));
        assert forall|i: int| 0 <= i < s1.len() implies
            vec_within((#[trigger] s1[i]).position, POS_LIMIT as int)
                && vec_within(s1[i].velocity, VEL_LIMIT as int) by {
            assert(same_but_target(s0[i], s1[i]));
            assert(vec_within(s0[i].position, POS_LIMIT as int));
            assert(agent_ok(s1[i]));
        }
    }
    boid_find_neighbours(store);
    let ghost s2 = store.agents@;
    proof {
        assert forall|i: int| 0 <= i < s2.len() implies
            vec_within((#[trigger] s2[i]).position, POS_HEADROOM as int)
                && vec_within(s2[i].velocity, AVOID_VEL_LIMIT as int) by {
            assert(same_but_velocity(s1[i], s2[i]));
            assert(abs_i(s2[i].velocity.x - s1[i].velocity.x) <= 2 * SCALE);
            assert(abs_i(s2[i].velocity.y - s1[i].velocity.y) <= 2 * SCALE);
        }
    }
    boid_avoidance(store);
    let ghost s3 = store.agents@;
    proof {
        assert forall|i: int| 0 <= i < s3.len() implies
            vec_within((#[trigger] s3[i]).position, POS_HEADROOM as int)
                && vec_within(s3[i].velocity, SEEK_VEL_LIMIT as int)
                && (match s3[i].target {
                    Some(t) => vec_within(t, POS_LIMIT as int),
                    None => true,
                }) by {
            assert(same_but_velocity(s2[i], s3[i]));
            assert(same_but_velocity(s1[i], s2[i]));
            assert(agent_ok(s1[i]));
            assert(abs_i(s3[i].velocity.x - s2[i].velocity.x) <= AVOID_TOTAL_MAX);
            assert(abs_i(s3[i].velocity.y - s2[i].velocity.y) <= AVOID_TOTAL_MAX);
        }
        assert(targets_within(s3, POS_LIMIT as int));
    }
    boid_seek_system(store);
    let ghost s4 = store.agents@;
    proof {
        assert forall|i: int| 0 <= i < s4.len() implies
            vec_within((#[trigger] s4[i]).position, POS_LIMIT as int)
                && vec_within(s4[i].velocity, DAMP_INTO_LIMIT as int)
                && vec_within(s4[i].velocity, COMP_LIMIT as int) by {
            assert(same_but_velocity(s3[i], s4[i]));
            assert(same_but_velocity(s2[i], s3[i]));
            assert(same_but_velocity(s1[i], s2[i]));
            assert(same_but_target(s0[i], s1[i]));
            assert(vec_within(s0[i].position, POS_LIMIT as int));
            assert(agent_ok(s1[i]));
            assert(abs_i(s4[i].velocity.x - s3[i].velocity.x) <= SEEK_PULL);
            assert(abs_i(s4[i].velocity.y - s3[i].velocity.y) <= SEEK_PULL);
            assert(abs_i(s3[i].velocity.x - s2[i].velocity.x) <= AVOID_TOTAL_MAX);
            assert(abs_i(s3[i].velocity.y - s2[i].velocity.y) <= AVOID_TOTAL_MAX);
            assert(abs_i(s2[i].velocity.x - s1[i].velocity.x) <= 2 * SCALE);
            assert(abs_i(s2[i].velocity.y - s1[i].velocity.y) <= 2 * SCALE);
        }
    }
    boid_movement_system(store);
    proof {
        let sf = store.agents@;
        assert forall|i: int| 0 <= i < sf.len() implies {
            &&& agent_ok(#[trigger] sf[i])
            &&& sf[i].id == i as u64
            &&& vec_within(sf[i].position, POS_HEADROOM as int)
            &&& sf[i].id == s0[i].id
            &&& sf[i].is_boid == s0[i].is_boid
            &&& sf[i].is_seeking == s0[i].is_seeking
            &&& abs_i(sf[i].position.x - s0[i].position.x) <= MOVE_SPEED
            &&& abs_i(sf[i].position.y - s0[i].position.y) <= MOVE_SPEED
            &&& (match command {
                Some(p) => sf[i].target == Some(p),
                None => true,
            })
        } by {
            assert(same_but_motion(s4[i], sf[i]));
            assert(same_but_velocity(s3[i], s4[i]));
            assert(same_but_velocity(s2[i], s3[i]));
            assert(same_but_velocity(s1[i], s2[i]));
            assert(same_but_target(s0[i], s1[i]));
            assert(agent_ok(s1[i]));
            assert(vec_within(s0[i].position, POS_LIMIT as int));
            assert(vec_within(s4[i].velocity, DAMP_INTO_LIMIT as int));
            assert(vec_within(s4[i].velocity, DAMP_INTO_LIMIT as int)
                ==> vec_within(sf[i].velocity, VEL_LIMIT as int));
            assert(abs_i(sf[i].position.x - s4[i].position.x) <= MOVE_SPEED);
            assert(abs_i(sf[i].position.y - s4[i].position.y) <= MOVE_SPEED);
        }
        assert(tick_stages(old(store).agents@, s1, s2, s3, s4, store.agents@, command));
    }
}

} // verus!
