//! Target assignment. Two policies, each of which replaces whatever
//! target an agent had: a command sets one point as every agent's
//! target; arrival gives an agent that has come within the arrival
//! radius of its target a fresh random target from the retarget square.

use vstd::prelude::*;
use vstd::pervasive::VecAdditionalExecFns;
use crate::vec2::{Vec2, vec_within, dist_sq, ARRIVAL_RADIUS, RETARGET_SPREAD, POS_LIMIT,
    MOVE_SPEED};
use crate::agent::{Agent, AgentStore, same_but_target, positions_within, targets_within,
    store_wf};
use crate::rng::random_in_range;

verus! {

/// The agent has a target at most `ARRIVAL_RADIUS` away.
pub open spec fn arrived(a: Agent) -> bool {
    match a.target {
        Some(t) => dist_sq(a.position, t) <= ARRIVAL_RADIUS * ARRIVAL_RADIUS,
        None => false,
    }
}

/// The agent's target is present and within `b` per component.
pub open spec fn target_in_square(a: Agent, b: int) -> bool {
    match a.target {
        Some(t) => vec_within(t, b),
        None => false,
    }
}

/// One run of the target stage: with a command point, every agent's
/// target becomes it; without one, arrived agents draw a fresh target
/// from the retarget square and every other agent is exactly
/// unchanged.
pub open spec fn targets_assigned(pre: Seq<Agent>, post: Seq<Agent>, command: Option<Vec2>) -> bool {
    &&& post.len() == pre.len()
    &&& (forall|i: int| 0 <= i < pre.len() ==> same_but_target(pre[i], #[trigger] post[i]))
    &&& match command {
        Some(p) => forall|i: int| 0 <= i < pre.len() ==>
            (#[trigger] post[i]).target == Some(p),
        None => {
            &&& (forall|i: int| 0 <= i < pre.len() && arrived(pre[i])
                ==> target_in_square(#[trigger] post[i], RETARGET_SPREAD as int))
            &&& (forall|i: int| 0 <= i < pre.len() && !arrived(pre[i])
                ==> #[trigger] post[i] == pre[i])
        },
    }
}

/// Command-driven retargeting: assign `p` as the target of every
/// agent, whatever target it had and wherever it stands.
pub fn set_boid_target(store: &mut AgentStore, p: Vec2)
    requires
        vec_within(p, POS_LIMIT as int),
    ensures
        targets_assigned(old(store).agents@, final(store).agents@, Some(p)),
        final(store).agents@.len() == old(store).agents@.len(),
        forall|i: int| 0 <= i < old(store).agents@.len() ==> {
            &&& same_but_target(old(store).agents@[i], #[trigger] final(store).agents@[i])
            &&& final(store).agents@[i].target == Some(p)
        },
        store_wf(old(store).agents@) ==> store_wf(final(store).agents@),
{
    let n = store.agents.len();
    let mut i: usize = 0;
    while i < n
        invariant
            i <= n,
            n == store.agents@.len(),
            n == old(store).agents@.len(),
            vec_within(p, POS_LIMIT as int),
            forall|j: int| 0 <= j < i ==> {
                &&& same_but_target(old(store).agents@[j], #[trigger] store.agents@[j])
                &&& store.agents@[j].target == Some(p)
            },
            forall|j: int| i <= j < n ==> store.agents@[j] == old(store).agents@[j],
        decreases n - i,
    {
        let a = store.agents[i];
        store.agents.set(i, Agent {
            id: a.id,
            position: a.position,
            velocity: a.velocity,
            target: Some(p),
            is_boid: a.is_boid,
            is_seeking: a.is_seeking,
        });
        i = i + 1;
    }
}

/// Arrival-driven retargeting: every agent within the arrival radius
/// of its target gets a fresh target drawn from the retarget square;
/// all other agents are left untouched.
pub fn set_random_boid_target(store: &mut AgentStore)
    requires
        positions_within(old(store).agents@, POS_LIMIT as int + MOVE_SPEED as int),
        targets_within(old(store).agents@, POS_LIMIT as int),
    ensures
        targets_assigned(old(store).agents@, final(store).agents@, None),
        final(store).agents@.len() == old(store).agents@.len(),
        forall|i: int| 0 <= i < old(store).agents@.len() ==>
            same_but_target(old(store).agents@[i], #[trigger] final(store).agents@[i]),
        forall|i: int| 0 <= i < old(store).agents@.len() && arrived(old(store).agents@[i])
            ==> target_in_square(#[trigger] final(store).agents@[i], RETARGET_SPREAD as int),
        forall|i: int| 0 <= i < old(store).agents@.len() && !arrived(old(store).agents@[i])
            ==> #[trigger] final(store).agents@[i] == old(store).agents@[i],
        store_wf(old(store).agents@) ==> store_wf(final(store).agents@),
{
    let n = store.agents.len();
    let mut i: usize = 0;
    while i < n
        invariant
            i <= n,
            n == store.agents@.len(),
            n == old(store).agents@.len(),
            positions_within(old(store).agents@, POS_LIMIT as int + MOVE_SPEED as int),
            targets_within(old(store).agents@, POS_LIMIT as int),
            forall|j: int| 0 <= j < i ==>
                same_but_target(old(store).agents@[j], #[trigger] store.agents@[j]),
            forall|j: int| 0 <= j < i && arrived(old(store).agents@[j])
                ==> target_in_square(#[trigger] store.agents@[j], RETARGET_SPREAD as int),
            forall|j: int| 0 <= j < i && !arrived(old(store).agents@[j])
                ==> #[trigger] store.agents@[j] == old(store).agents@[j],
            forall|j: int| i <= j < n ==> store.agents@[j] == old(store).agents@[j],
        decreases n - i,
    {
        let a = store.agents[i];
        match a.target {
            Some(t) => {
                let d = crate::vec2::distance_sq(a.position, t);
                if d <= ARRIVAL_RADIUS * ARRIVAL_RADIUS {
                    let qx = random_in_range(-RETARGET_SPREAD, RETARGET_SPREAD);
                    let qy = random_in_range(-RETARGET_SPREAD, RETARGET_SPREAD);
                    store.agents.set(i, Agent {
                        id: a.id,
                        position: a.position,
                        velocity: a.velocity,
                        target: Some(Vec2 { x: qx, y: qy }),
                        is_boid: a.is_boid,
                        is_seeking: a.is_seeking,
                    });
                }
            },
            None => {},
        }
        i = i + 1;
    }
}

} // verus!
