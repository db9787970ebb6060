//! Motion integration. While an agent's velocity is non-zero its
//! position advances by the velocity's direction stretched to the
//! fixed step length, then the velocity is damped: snapped to exactly
//! zero when both components sit in the rest band, and otherwise
//! decayed ten percent toward zero. Speed is thereby decoupled from
//! the steering accumulator: velocity only ever picks the direction.

use vstd::prelude::*;
use vstd::pervasive::VecAdditionalExecFns;
use crate::vec2::{Vec2, GVec, vec_within, is_zero, eqg, gscale, abs_i, sgn_apply,
    MOVE_SPEED, DAMP_THRESHOLD, POS_LIMIT, VEL_LIMIT, COMP_LIMIT, scale_to_length};
use crate::agent::{Agent, AgentStore, same_but_motion, positions_within, velocities_within};

verus! {

/// Velocities the damping arithmetic accepts.
pub const DAMP_COMP_LIMIT: i64 = 2_000_000_000_000;

/// Velocities at most this large damp to within `VEL_LIMIT`.
pub const DAMP_INTO_LIMIT: i64 = 1_111_111_111;

/// Both velocity components within the damping threshold: the agent
/// is about to come to rest.
pub open spec fn at_rest_band(v: Vec2) -> bool {
    -DAMP_THRESHOLD <= v.x <= DAMP_THRESHOLD && -DAMP_THRESHOLD <= v.y <= DAMP_THRESHOLD
}

/// One velocity component decayed ten percent toward zero, rounded
/// toward zero.
pub open spec fn decay1(a: int) -> int {
    sgn_apply(a, (abs_i(a) * 9) / 10)
}

/// The damped velocity: exactly zero inside the rest band, else both
/// components decayed ten percent toward zero.
pub open spec fn damped(v: Vec2) -> GVec {
    if at_rest_band(v) {
        (GVec { x: 0, y: 0 })
    } else {
        (GVec { x: decay1(v.x as int), y: decay1(v.y as int) })
    }
}

/// The translation step of one tick: the velocity's direction
/// stretched to length `MOVE_SPEED` (meaningful for non-zero `v`).
pub open spec fn step_vec(v: Vec2) -> GVec {
    gscale(v.x as int, v.y as int, MOVE_SPEED as int)
}

/// One run of the motion stage: agents at exactly zero velocity are
/// untouched; every other agent's position advances by the fixed step
/// along its velocity and the velocity is damped; nothing else
/// changes.
pub open spec fn motion_applied(pre: Seq<Agent>, post: Seq<Agent>) -> bool {
    &&& post.len() == pre.len()
    &&& (forall|i: int| 0 <= i < pre.len() ==> same_but_motion(pre[i], #[trigger] post[i]))
    &&& (forall|i: int| 0 <= i < pre.len() && is_zero(pre[i].velocity)
        ==> #[trigger] post[i] == pre[i])
    &&& (forall|i: int| 0 <= i < pre.len() && !is_zero(pre[i].velocity) ==> {
        let a = pre[i];
        let b = #[trigger] post[i];
        &&& b.position.x == a.position.x + step_vec(a.velocity).x
        &&& b.position.y == a.position.y + step_vec(a.velocity).y
        &&& eqg(b.velocity, damped(a.velocity))
    })
}

/// One component decayed ten percent toward zero.
fn decay_component(a: i64) -> (r: i64)
    requires
        -DAMP_COMP_LIMIT <= a <= DAMP_COMP_LIMIT,
    ensures
        r as int == decay1(a as int),
        abs_i(r as int) <= (abs_i(a as int) * 9) / 10,
        abs_i(r as int) <= abs_i(a as int),
{
    let aa: u64 = if a < 0 { (-a) as u64 } else { a as u64 };
    let q: u64 = aa * 9 / 10;
    proof {
        vstd::arithmetic::div_mod::lemma_div_is_ordered(aa as int * 9, aa as int * 10, 10);
        vstd::arithmetic::div_mod::lemma_div_multiples_vanish(aa as int, 10);
    }
    if a < 0 { -(q as i64) } else { q as i64 }
}

/// Move every agent one tick: an agent with exactly zero velocity is
/// skipped entirely; every other agent's position advances by the
/// fixed-length step along its velocity, after which the velocity is
/// damped — snapped to exactly zero inside the rest band, else
/// decayed ten percent toward zero.
pub fn boid_movement_system(store: &mut AgentStore)
    requires
        positions_within(old(store).agents@, POS_LIMIT as int),
        velocities_within(old(store).agents@, COMP_LIMIT as int),
    ensures
        motion_applied(old(store).agents@, final(store).agents@),
        final(store).agents@.len() == old(store).agents@.len(),
        forall|i: int| 0 <= i < old(store).agents@.len() ==>
            same_but_motion(old(store).agents@[i], #[trigger] final(store).agents@[i]),
        forall|i: int| 0 <= i < old(store).agents@.len()
            && is_zero(old(store).agents@[i].velocity)
            ==> #[trigger] final(store).agents@[i] == old(store).agents@[i],
        forall|i: int| 0 <= i < old(store).agents@.len()
            && !is_zero(old(store).agents@[i].velocity)
            ==> {
                let a = old(store).agents@[i];
                let b = #[trigger] final(store).agents@[i];
                &&& b.position.x == a.position.x + step_vec(a.velocity).x
                &&& b.position.y == a.position.y + step_vec(a.velocity).y
                &&& eqg(b.velocity, damped(a.velocity))
            },
        forall|i: int| 0 <= i < old(store).agents@.len() ==> {
            let a = old(store).agents@[i];
            let b = #[trigger] final(store).agents@[i];
            &&& abs_i(b.position.x - a.position.x) <= MOVE_SPEED
            &&& abs_i(b.position.y - a.position.y) <= MOVE_SPEED
            &&& (vec_within(a.velocity, DAMP_INTO_LIMIT as int)
                ==> vec_within(b.velocity, VEL_LIMIT as int))
        },
{
    let n = store.agents.len();
    let mut i: usize = 0;
    while i < n
        invariant
            i <= n,
            n == store.agents@.len(),
            n == old(store).agents@.len(),
            positions_within(old(store).agents@, POS_LIMIT as int),
            velocities_within(old(store).agents@, COMP_LIMIT as int),
            forall|j: int| i <= j < n ==> #[trigger] store.agents@[j] == old(store).agents@[j],
            forall|j: int| 0 <= j < i ==>
                same_but_motion(old(store).agents@[j], #[trigger] store.agents@[j]),
            forall|j: int| 0 <= j < i && is_zero(old(store).agents@[j].velocity)
                ==> #[trigger] store.agents@[j] == old(store).agents@[j],
            forall|j: int| 0 <= j < i && !is_zero(old(store).agents@[j].velocity)
                ==> {
                    let a = old(store).agents@[j];
                    let b = #[trigger] store.agents@[j];
                    &&& b.position.x == a.position.x + step_vec(a.velocity).x
                    &&& b.position.y == a.position.y + step_vec(a.velocity).y
                    &&& eqg(b.velocity, damped(a.velocity))
                },
            forall|j: int| 0 <= j < i ==> {
                let a = old(store).agents@[j];
                let b = #[trigger] store.agents@[j];
                &&& abs_i(b.position.x - a.position.x) <= MOVE_SPEED
                &&& abs_i(b.position.y - a.position.y) <= MOVE_SPEED
                &&& (vec_within(a.velocity, DAMP_INTO_LIMIT as int)
                    ==> vec_within(b.velocity, VEL_LIMIT as int))
            },
        decreases n - i,
    {
        let a = store.agents[i];
        if !(a.velocity.x == 0 && a.velocity.y == 0) {
            let step = scale_to_length(a.velocity, MOVE_SPEED);
            let new_pos = Vec2 { x: a.position.x + step.x, y: a.position.y + step.y };
            let new_vel: Vec2;
            if a.velocity.x >= -DAMP_THRESHOLD && a.velocity.x <= DAMP_THRESHOLD
                && a.velocity.y <= DAMP_THRESHOLD && a.velocity.y >= -DAMP_THRESHOLD {
                new_vel = Vec2 { x: 0, y: 0 };
            } else {
                let dx = decay_component(a.velocity.x);
                let dy = decay_component(a.velocity.y);
                proof {
                    if vec_within(a.velocity, DAMP_INTO_LIMIT as int) {
                        vstd::arithmetic::div_mod::lemma_div_is_ordered(
                            abs_i(a.velocity.x as int) * 9, DAMP_INTO_LIMIT as int * 9, 10);
                        vstd::arithmetic::div_mod::lemma_div_is_ordered(
                            abs_i(a.velocity.y as int) * 9, DAMP_INTO_LIMIT as int * 9, 10);
                    }
                }
                new_vel = Vec2 { x: dx, y: dy };
            }
            store.agents.set(i, Agent {
                id: a.id,
                position: new_pos,
                velocity: new_vel,
                target: a.target,
                is_boid: a.is_boid,
                is_seeking: a.is_seeking,
            });
        }
        i = i + 1;
    }
}

} // verus!
