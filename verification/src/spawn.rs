//! Agent creation at simulation start: boids spawn with a random (or
//! given) position, a random initial target, zero velocity, and both
//! capability flags. The population is fixed afterwards.

use vstd::prelude::*;
use crate::vec2::{Vec2, vec_within, is_zero, POS_LIMIT, SPAWN_SPREAD, RETARGET_SPREAD};
use crate::agent::{Agent, AgentStore, store_wf, MAX_AGENTS};
use crate::target::target_in_square;
use crate::rng::random_in_range;

verus! {

/// Add one agent at `position`: the next id, zero velocity, both
/// capabilities, and a random initial target from the retarget square.
pub fn spawn_boid(store: &mut AgentStore, position: Vec2)
    requires
        old(store).agents@.len() < MAX_AGENTS,
        vec_within(position, POS_LIMIT as int),
    ensures
        final(store).agents@.len() == old(store).agents@.len() + 1,
        forall|j: int| 0 <= j < old(store).agents@.len() ==>
            #[trigger] final(store).agents@[j] == old(store).agents@[j],
        ({
            let a = final(store).agents@.last();
            &&& a.id == old(store).agents@.len() as u64
            &&& a.position == position
            &&& is_zero(a.velocity)
            &&& a.is_boid
            &&& a.is_seeking
            &&& target_in_square(a, RETARGET_SPREAD as int)
        }),
        store_wf(old(store).agents@) ==> store_wf(final(store).agents@),
{
    let id = store.agents.len() as u64;
    let tx = random_in_range(-RETARGET_SPREAD, RETARGET_SPREAD);
    let ty = random_in_range(-RETARGET_SPREAD, RETARGET_SPREAD);
    store.agents.push(Agent {
        id: id,
        position: position,
        velocity: Vec2 { x: 0, y: 0 },
        target: Some(Vec2 { x: tx, y: ty }),
        is_boid: true,
        is_seeking: true,
    });
}

/// Spawn `count` boids, each at a random position from the spawn
/// square, with a random initial target from the retarget square.
pub fn spawn_boids(store: &mut AgentStore, count: usize)
    requires
        old(store).agents@.len() + count <= MAX_AGENTS,
    ensures
        final(store).agents@.len() == old(store).agents@.len() + count,
        forall|j: int| 0 <= j < old(store).agents@.len() ==>
            #[trigger] final(store).agents@[j] == old(store).agents@[j],
        forall|j: int| old(store).agents@.len() <= j < final(store).agents@.len() ==> {
            let a = #[trigger] final(store).agents@[j];
            &&& a.id == j as u64
            &&& vec_within(a.position, SPAWN_SPREAD as int)
            &&& is_zero(a.velocity)
            &&& a.is_boid
            &&& a.is_seeking
            &&& target_in_square(a, RETARGET_SPREAD as int)
        },
        store_wf(old(store).agents@) ==> store_wf(final(store).agents@),
{
    let base = store.agents.len();
    let mut c: usize = 0;
    while c < count
        invariant
            c <= count,
            base == old(store).agents@.len(),
            base + count <= MAX_AGENTS,
            store.agents@.len() == base + c,
            forall|j: int| 0 <= j < base ==>
                #[trigger] store.agents@[j] == old(store).agents@[j],
            forall|j: int| base <= j < store.agents@.len() ==> {
                let a = #[trigger] store.agents@[j];
                &&& a.id == j as u64
                &&& vec_within(a.position, SPAWN_SPREAD as int)
                &&& is_zero(a.velocity)
                &&& a.is_boid
                &&& a.is_seeking
                &&& target_in_square(a, RETARGET_SPREAD as int)
            },
            store_wf(old(store).agents@) ==> store_wf(store.agents@),
        decreases count - c,
    {
        let px = random_in_range(-SPAWN_SPREAD, SPAWN_SPREAD);
        let py = random_in_range(-SPAWN_SPREAD, SPAWN_SPREAD);
        spawn_boid(store, Vec2 { x: px, y: py });
        c = c + 1;
    }
}

} // verus!
