//! Seeking: an agent with both capabilities and a present target is
//! pulled toward it — the direction from target to agent, stretched to
//! the pull magnitude, is subtracted from the velocity. Agents without
//! a target, without the capabilities, or standing exactly on their
//! target are left untouched.

use vstd::prelude::*;
use vstd::pervasive::VecAdditionalExecFns;
use crate::vec2::{Vec2, GVec, vec_within, gscale, abs_i, SEEK_PULL, POS_LIMIT,
    MOVE_SPEED, scale_to_length};
use crate::agent::{Agent, AgentStore, same_but_velocity, positions_within, targets_within,
    velocities_within};

verus! {

/// Velocities the seek arithmetic accepts.
pub const SEEK_VEL_LIMIT: i64 = 1_500_000_000;

/// What seeking subtracts from one agent's velocity: the direction
/// away from its target stretched to `SEEK_PULL`, or zero where the
/// rule does not apply (no capabilities, no target, or a degenerate
/// zero direction).
pub open spec fn seek_delta(a: Agent) -> GVec {
    if a.is_seeking && a.is_boid {
        match a.target {
            Some(t) => if a.position == t {
                (GVec { x: 0, y: 0 })
            } else {
                gscale(a.position.x - t.x, a.position.y - t.y, SEEK_PULL as int)
            },
            None => (GVec { x: 0, y: 0 }),
        }
    } else {
        (GVec { x: 0, y: 0 })
    }
}

/// One run of the seek stage: every agent's velocity loses its seek
/// delta; nothing else changes.
pub open spec fn seek_applied(pre: Seq<Agent>, post: Seq<Agent>) -> bool {
    &&& post.len() == pre.len()
    &&& (forall|i: int| 0 <= i < pre.len() ==> same_but_velocity(pre[i], #[trigger] post[i]))
    &&& (forall|i: int| 0 <= i < pre.len() ==> {
        &&& (#[trigger] post[i]).velocity.x == pre[i].velocity.x - seek_delta(pre[i]).x
        &&& post[i].velocity.y == pre[i].velocity.y - seek_delta(pre[i]).y
    })
}

/// Pull every seeking boid toward its target: its velocity loses the
/// seek delta; every other agent is unchanged.
pub fn boid_seek_system(store: &mut AgentStore)
    requires
        positions_within(old(store).agents@, POS_LIMIT as int + MOVE_SPEED as int),
        targets_within(old(store).agents@, POS_LIMIT as int),
        velocities_within(old(store).agents@, SEEK_VEL_LIMIT as int),
    ensures
        seek_applied(old(store).agents@, final(store).agents@),
        final(store).agents@.len() == old(store).agents@.len(),
        forall|i: int| 0 <= i < old(store).agents@.len() ==>
            same_but_velocity(old(store).agents@[i], #[trigger] final(store).agents@[i]),
        forall|i: int| 0 <= i < old(store).agents@.len() ==> {
            let a = old(store).agents@[i];
            let b = #[trigger] final(store).agents@[i];
            &&& b.velocity.x == a.velocity.x - seek_delta(a).x
            &&& b.velocity.y == a.velocity.y - seek_delta(a).y
            &&& abs_i(b.velocity.x - a.velocity.x) <= SEEK_PULL
            &&& abs_i(b.velocity.y - a.velocity.y) <= SEEK_PULL
        },
{
    let n = store.agents.len();
    let mut i: usize = 0;
    while i < n
        invariant
            i <= n,
            n == store.agents@.len(),
            n == old(store).agents@.len(),
            positions_within(old(store).agents@, POS_LIMIT as int + MOVE_SPEED as int),
            targets_within(old(store).agents@, POS_LIMIT as int),
            velocities_within(old(store).agents@, SEEK_VEL_LIMIT as int),
            forall|j: int| i <= j < n ==> #[trigger] store.agents@[j] == old(store).agents@[j],
            forall|j: int| 0 <= j < i ==>
                same_but_velocity(old(store).agents@[j], #[trigger] store.agents@[j]),
            forall|j: int| 0 <= j < i ==> {
                let a = old(store).agents@[j];
                let b = #[trigger] store.agents@[j];
                &&& b.velocity.x == a.velocity.x - seek_delta(a).x
                &&& b.velocity.y == a.velocity.y - seek_delta(a).y
                &&& abs_i(b.velocity.x - a.velocity.x) <= SEEK_PULL
                &&& abs_i(b.velocity.y - a.velocity.y) <= SEEK_PULL
            },
        decreases n - i,
    {
        let a = store.agents[i];
        if a.is_seeking && a.is_boid {
            match a.target {
                Some(t) => {
                    let dir = Vec2 { x: a.position.x - t.x, y: a.position.y - t.y };
                    if !(dir.x == 0 && dir.y == 0) {
                        let d = scale_to_length(dir, SEEK_PULL);
                        store.agents.set(i, Agent {
                            id: a.id,
                            position: a.position,
                            velocity: Vec2 {
                                x: a.velocity.x - d.x,
                                y: a.velocity.y - d.y,
                            },
                            target: a.target,
                            is_boid: a.is_boid,
                            is_seeking: a.is_seeking,
                        });
                        proof {
                            assert(!(a.position == t));
                        }
                    } else {
                        proof {
                            assert(a.position == t);
                        }
                    }
                },
                None => {},
            }
        }
        i = i + 1;
    }
}

} // verus!
