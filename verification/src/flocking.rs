//! Neighbour discovery and the two averaging flocking rules.
//!
//! Each tick rebuilds, for every agent, the list of all other agents
//! within the perception radius, then adds two unit-length steering
//! vectors to the agent's velocity: alignment (toward the neighbours'
//! average velocity) and cohesion (toward the neighbours' average
//! position). An empty neighbour list contributes nothing, as does an
//! average that rounds to the zero vector.

use vstd::prelude::*;
use vstd::pervasive::VecAdditionalExecFns;
use crate::vec2::{Vec2, GVec, vec_within, eqg, gscale, abs_i, div_toward_zero, dist_sq,
    distance_sq, div_trunc, scale_to_length, SCALE, PERCEPTION_RADIUS, POS_LIMIT, MOVE_SPEED,
    POS_HEADROOM, VEL_LIMIT};
use crate::agent::{Agent, AgentStore, NeighbourRecord, Neighbours, same_but_velocity,
    positions_within, velocities_within, MAX_AGENTS};

verus! {

/// Positions this close (squared) count as neighbours.
pub open spec fn near(a: Vec2, b: Vec2) -> bool {
    dist_sq(a, b) <= PERCEPTION_RADIUS * PERCEPTION_RADIUS
}

pub open spec fn within_perception(a: Agent, b: Agent) -> bool {
    near(a.position, b.position)
}

/// The record one tick keeps about agent `a` as somebody's neighbour.
pub open spec fn rec_of(a: Agent) -> NeighbourRecord {
    (NeighbourRecord { id: a.id, velocity: a.velocity, position: a.position })
}

/// The neighbour records of agent `i` among the agents of index
/// below `j`, in index order.
pub open spec fn nbrs_upto(agents: Seq<Agent>, i: int, j: int) -> Seq<NeighbourRecord>
    decreases j,
{
    if j <= 0 {
        Seq::empty()
    } else if j - 1 != i && within_perception(agents[i], agents[j - 1]) {
        nbrs_upto(agents, i, j - 1).push(rec_of(agents[j - 1]))
    } else {
        nbrs_upto(agents, i, j - 1)
    }
}

/// The full neighbour list of agent `i`: every other agent within the
/// perception radius, in index order.
pub open spec fn neighbours_of(agents: Seq<Agent>, i: int) -> Seq<NeighbourRecord> {
    nbrs_upto(agents, i, agents.len() as int)
}

pub open spec fn sum_vel_x(ns: Seq<NeighbourRecord>) -> int
    decreases ns.len(),
{
    if ns.len() == 0 { 0 } else { sum_vel_x(ns.drop_last()) + ns.last().velocity.x }
}

pub open spec fn sum_vel_y(ns: Seq<NeighbourRecord>) -> int
    decreases ns.len(),
{
    if ns.len() == 0 { 0 } else { sum_vel_y(ns.drop_last()) + ns.last().velocity.y }
}

pub open spec fn sum_pos_x(ns: Seq<NeighbourRecord>) -> int
    decreases ns.len(),
{
    if ns.len() == 0 { 0 } else { sum_pos_x(ns.drop_last()) + ns.last().position.x }
}

pub open spec fn sum_pos_y(ns: Seq<NeighbourRecord>) -> int
    decreases ns.len(),
{
    if ns.len() == 0 { 0 } else { sum_pos_y(ns.drop_last()) + ns.last().position.y }
}

/// What alignment adds to a velocity: the neighbours' average velocity
/// (rounded toward zero), normalized to unit length — or zero for an
/// empty list or a zero average.
pub open spec fn align_delta(ns: Seq<NeighbourRecord>) -> GVec {
    if ns.len() == 0 {
        (GVec { x: 0, y: 0 })
    } else {
        let n = ns.len() as int;
        let ax = div_toward_zero(sum_vel_x(ns), n);
        let ay = div_toward_zero(sum_vel_y(ns), n);
        if ax == 0 && ay == 0 {
            (GVec { x: 0, y: 0 })
        } else {
            gscale(ax, ay, SCALE as int)
        }
    }
}

/// What cohesion adds to a velocity: the vector from the agent's own
/// position to the neighbours' average position, normalized to unit
/// length — or zero for an empty list or a zero difference.
pub open spec fn cohesion_delta(ns: Seq<NeighbourRecord>, p: Vec2) -> GVec {
    if ns.len() == 0 {
        (GVec { x: 0, y: 0 })
    } else {
        let n = ns.len() as int;
        let cx = div_toward_zero(sum_pos_x(ns), n) - p.x;
        let cy = div_toward_zero(sum_pos_y(ns), n) - p.y;
        if cx == 0 && cy == 0 {
            (GVec { x: 0, y: 0 })
        } else {
            gscale(cx, cy, SCALE as int)
        }
    }
}

/// One run of the flocking stage: every agent's velocity gains its
/// alignment and cohesion deltas, computed from the pre-stage
/// snapshot; nothing else changes.
pub open spec fn flocking_applied(pre: Seq<Agent>, post: Seq<Agent>) -> bool {
    &&& post.len() == pre.len()
    &&& (forall|i: int| 0 <= i < pre.len() ==> same_but_velocity(pre[i], #[trigger] post[i]))
    &&& (forall|i: int| 0 <= i < pre.len() ==> {
        let ns = neighbours_of(pre, i);
        &&& (#[trigger] post[i]).velocity.x == pre[i].velocity.x
            + align_delta(ns).x + cohesion_delta(ns, pre[i].position).x
        &&& post[i].velocity.y == pre[i].velocity.y
            + align_delta(ns).y + cohesion_delta(ns, pre[i].position).y
    })
}

/// Every neighbour record inherits the field bounds of the agents it
/// was taken from.
pub proof fn lemma_nbrs_fields_bounded(agents: Seq<Agent>, i: int, j: int, vb: int, pb: int)
    requires
        0 <= j <= agents.len(),
        velocities_within(agents, vb),
        positions_within(agents, pb),
    ensures
        nbrs_upto(agents, i, j).len() <= j,
        forall|k: int| 0 <= k < nbrs_upto(agents, i, j).len() ==> {
            let r = #[trigger] nbrs_upto(agents, i, j)[k];
            vec_within(r.velocity, vb) && vec_within(r.position, pb)
        },
    decreases j,
{
    if j > 0 {
        lemma_nbrs_fields_bounded(agents, i, j - 1, vb, pb);
    }
}

/// Every record in `nbrs_upto(agents, i, j)` stems from an agent of
/// index below `j`, other than `i`, within the perception radius.
pub proof fn lemma_nbrs_sound(agents: Seq<Agent>, i: int, j: int)
    requires
        0 <= i < agents.len(),
        0 <= j <= agents.len(),
    ensures
        forall|k: int| 0 <= k < nbrs_upto(agents, i, j).len() ==>
            exists|jj: int| 0 <= jj < j && jj != i
                && within_perception(agents[i], agents[jj])
                && #[trigger] nbrs_upto(agents, i, j)[k] == rec_of(agents[jj]),
    decreases j,
{
    if j > 0 {
        lemma_nbrs_sound(agents, i, j - 1);
        let pre = nbrs_upto(agents, i, j - 1);
        let cur = nbrs_upto(agents, i, j);
        assert forall|k: int| 0 <= k < cur.len() implies
            exists|jj: int| 0 <= jj < j && jj != i
                && within_perception(agents[i], agents[jj])
                && #[trigger] cur[k] == rec_of(agents[jj]) by {
            if j - 1 != i && within_perception(agents[i], agents[j - 1])
                && k == pre.len() {
                assert(cur[k] == rec_of(agents[j - 1]));
                assert(0 <= j - 1 < j && j - 1 != i
                    && within_perception(agents[i], agents[j - 1])
                    && cur[k] == rec_of(agents[j - 1]));
            } else {
                assert(0 <= k < pre.len());
                assert(cur[k] == pre[k]);
                let jj = choose|jj: int| 0 <= jj < j - 1 && jj != i
                    && within_perception(agents[i], agents[jj])
                    && #[trigger] pre[k] == rec_of(agents[jj]);
                assert(0 <= jj < j && jj != i
                    && within_perception(agents[i], agents[jj])
                    && cur[k] == rec_of(agents[jj]));
            }
        }
    }
}

/// Every other agent within the perception radius appears in the list.
pub proof fn lemma_nbrs_complete(agents: Seq<Agent>, i: int, j: int, jj: int)
    requires
        0 <= i < agents.len(),
        0 <= jj < j <= agents.len(),
        jj != i,
        within_perception(agents[i], agents[jj]),
    ensures
        nbrs_upto(agents, i, j).contains(rec_of(agents[jj])),
    decreases j,
{
    if jj == j - 1 {
        let pre = nbrs_upto(agents, i, j - 1);
        assert(nbrs_upto(agents, i, j)[pre.len() as int] == rec_of(agents[j - 1]));
    } else {
        lemma_nbrs_complete(agents, i, j - 1, jj);
        let pre = nbrs_upto(agents, i, j - 1);
        let k = choose|k: int| 0 <= k < pre.len() && pre[k] == rec_of(agents[jj]);
        assert(nbrs_upto(agents, i, j)[k] == rec_of(agents[jj]));
    }
}

/// The neighbour list of agent `i`: every other agent whose distance
/// is within the perception radius, in index order, with the velocity
/// and position it holds right now.
pub fn find_neighbours(agents: &Vec<Agent>, i: usize) -> (ns: Neighbours)
    requires
        i < agents@.len(),
        positions_within(agents@, POS_LIMIT as int + MOVE_SPEED as int),
    ensures
        ns.0@ == neighbours_of(agents@, i as int),
{
    let n = agents.len();
    let mut out: Vec<NeighbourRecord> = Vec::new();
    let mut j: usize = 0;
    while j < n
        invariant
            j <= n,
            i < n,
            n == agents@.len(),
            positions_within(agents@, POS_LIMIT as int + MOVE_SPEED as int),
            out@ == nbrs_upto(agents@, i as int, j as int),
        decreases n - j,
    {
        if j != i {
            let d = distance_sq(agents[i].position, agents[j].position);
            if d <= PERCEPTION_RADIUS * PERCEPTION_RADIUS {
                let a = agents[j];
                out.push(NeighbourRecord {
                    id: a.id,
                    velocity: a.velocity,
                    position: a.position,
                });
            }
        }
        j = j + 1;
    }
    Neighbours(out)
}

/// Alignment: the average of the neighbours' velocities, normalized
/// and added as a unit-length vector — nothing for an empty list or a
/// zero average.
pub fn calc_alignment(ns: &Neighbours) -> (d: Vec2)
    requires
        ns.0@.len() <= MAX_AGENTS as int,
        forall|k: int| 0 <= k < ns.0@.len() ==>
            vec_within((#[trigger] ns.0@[k]).velocity, VEL_LIMIT as int),
    ensures
        eqg(d, align_delta(ns.0@)),
        vec_within(d, SCALE as int),
{
    let n = ns.0.len();
    if n == 0 {
        return Vec2 { x: 0, y: 0 };
    }
    let mut sx: i64 = 0;
    let mut sy: i64 = 0;
    let mut k: usize = 0;
    while k < n
        invariant
            k <= n,
            n == ns.0@.len(),
            n <= MAX_AGENTS as int,
            forall|m: int| 0 <= m < ns.0@.len() ==>
                vec_within((#[trigger] ns.0@[m]).velocity, VEL_LIMIT as int),
            sx as int == sum_vel_x(ns.0@.take(k as int)),
            sy as int == sum_vel_y(ns.0@.take(k as int)),
            -(k as int) * (VEL_LIMIT as int) <= sx as int <= (k as int) * (VEL_LIMIT as int),
            -(k as int) * (VEL_LIMIT as int) <= sy as int <= (k as int) * (VEL_LIMIT as int),
        decreases n - k,
    {
        proof {
            assert(ns.0@.take(k as int + 1).drop_last() =~= ns.0@.take(k as int));
            assert(ns.0@.take(k as int + 1).last() == ns.0@[k as int]);
            lemma_mul_steps(k as int, VEL_LIMIT as int);
        }
        sx = sx + ns.0[k].velocity.x;
        sy = sy + ns.0[k].velocity.y;
        k = k + 1;
    }
    proof {
        assert(ns.0@.take(n as int) =~= ns.0@);
        lemma_mul_steps(n as int, VEL_LIMIT as int);
        lemma_avg_bounded(sx as int, n as int, VEL_LIMIT as int);
        lemma_avg_bounded(sy as int, n as int, VEL_LIMIT as int);
    }
    let ax = div_trunc(sx, n);
    let ay = div_trunc(sy, n);
    if ax == 0 && ay == 0 {
        return Vec2 { x: 0, y: 0 };
    }
    scale_to_length(Vec2 { x: ax, y: ay }, SCALE)
}

/// Cohesion: the vector from `position` to the neighbours' average
/// position, normalized and added as a unit-length vector — nothing
/// for an empty list or a zero difference.
pub fn calc_cohesion(ns: &Neighbours, position: Vec2) -> (d: Vec2)
    requires
        ns.0@.len() <= MAX_AGENTS as int,
        forall|k: int| 0 <= k < ns.0@.len() ==>
            vec_within((#[trigger] ns.0@[k]).position, POS_HEADROOM as int),
        vec_within(position, POS_HEADROOM as int),
    ensures
        eqg(d, cohesion_delta(ns.0@, position)),
        vec_within(d, SCALE as int),
{
    let n = ns.0.len();
    if n == 0 {
        return Vec2 { x: 0, y: 0 };
    }
    let mut sx: i64 = 0;
    let mut sy: i64 = 0;
    let mut k: usize = 0;
    while k < n
        invariant
            k <= n,
            n == ns.0@.len(),
            n <= MAX_AGENTS as int,
            forall|m: int| 0 <= m < ns.0@.len() ==>
                vec_within((#[trigger] ns.0@[m]).position, POS_HEADROOM as int),
            sx as int == sum_pos_x(ns.0@.take(k as int)),
            sy as int == sum_pos_y(ns.0@.take(k as int)),
            -(k as int) * (POS_HEADROOM as int) <= sx as int
                <= (k as int) * (POS_HEADROOM as int),
            -(k as int) * (POS_HEADROOM as int) <= sy as int
                <= (k as int) * (POS_HEADROOM as int),
        decreases n - k,
    {
        proof {
            assert(ns.0@.take(k as int + 1).drop_last() =~= ns.0@.take(k as int));
            assert(ns.0@.take(k as int + 1).last() == ns.0@[k as int]);
            lemma_mul_steps(k as int, POS_HEADROOM as int);
        }
        sx = sx + ns.0[k].position.x;
        sy = sy + ns.0[k].position.y;
        k = k + 1;
    }
    proof {
        assert(ns.0@.take(n as int) =~= ns.0@);
        lemma_mul_steps(n as int, POS_HEADROOM as int);
        lemma_avg_bounded(sx as int, n as int, POS_HEADROOM as int);
        lemma_avg_bounded(sy as int, n as int, POS_HEADROOM as int);
    }
    let mx = div_trunc(sx, n);
    let my = div_trunc(sy, n);
    let cx = mx - position.x;
    let cy = my - position.y;
    if cx == 0 && cy == 0 {
        return Vec2 { x: 0, y: 0 };
    }
    scale_to_length(Vec2 { x: cx, y: cy }, SCALE)
}

/// `(k + 1) * b == k * b + b`, and products of non-negatives are
/// non-negative; spelt out for the running-sum bounds.
proof fn lemma_mul_steps(k: int, b: int)
    by (nonlinear_arith)
    requires
        0 <= k,
        0 <= b,
    ensures
        (k + 1) * b == k * b + b,
        0 <= k * b,
{
}

/// A sum of `n` values each within `b` has its average within `b`.
proof fn lemma_avg_bounded(s: int, n: int, b: int)
    requires
        1 <= n,
        0 <= b,
        -(n * b) <= s <= n * b,
    ensures
        abs_i(s) / n <= b,
        -b <= div_toward_zero(s, n) <= b,
{
    vstd::arithmetic::div_mod::lemma_div_is_ordered(abs_i(s), n * b, n);
    vstd::arithmetic::div_mod::lemma_div_multiples_vanish(b, n);
    vstd::arithmetic::div_mod::lemma_div_pos_is_pos(abs_i(s), n);
}

/// Rebuild every agent's neighbour list from the tick-start snapshot,
/// then add the alignment and cohesion deltas to its velocity. Agents
/// with an empty neighbour list are untouched.
pub fn boid_find_neighbours(store: &mut AgentStore)
    requires
        old(store).agents@.len() <= MAX_AGENTS as int,
        positions_within(old(store).agents@, POS_LIMIT as int + MOVE_SPEED as int),
        velocities_within(old(store).agents@, VEL_LIMIT as int),
    ensures
        flocking_applied(old(store).agents@, final(store).agents@),
        final(store).agents@.len() == old(store).agents@.len(),
        forall|i: int| 0 <= i < old(store).agents@.len() ==>
            same_but_velocity(old(store).agents@[i], #[trigger] final(store).agents@[i]),
        forall|i: int| 0 <= i < old(store).agents@.len() ==> {
            let a = old(store).agents@[i];
            let b = #[trigger] final(store).agents@[i];
            let ns = neighbours_of(old(store).agents@, i);
            &&& b.velocity.x == a.velocity.x + align_delta(ns).x + cohesion_delta(ns, a.position).x
            &&& b.velocity.y == a.velocity.y + align_delta(ns).y + cohesion_delta(ns, a.position).y
            &&& abs_i(b.velocity.x - a.velocity.x) <= 2 * SCALE
            &&& abs_i(b.velocity.y - a.velocity.y) <= 2 * SCALE
        },
        forall|i: int| 0 <= i < old(store).agents@.len()
            && neighbours_of(old(store).agents@, i).len() == 0
            ==> #[trigger] final(store).agents@[i] == old(store).agents@[i],
{
    let n = store.agents.len();
    let mut lists: Vec<Neighbours> = Vec::new();
    let mut i: usize = 0;
    while i < n
        invariant
            i <= n,
            n == store.agents@.len(),
            store.agents@ == old(store).agents@,
            positions_within(old(store).agents@, POS_LIMIT as int + MOVE_SPEED as int),
            lists@.len() == i as int,
            forall|j: int| 0 <= j < i ==>
                (#[trigger] lists@[j]).0@ == neighbours_of(old(store).agents@, j),
        decreases n - i,
    {
        let ns = find_neighbours(&store.agents, i);
        lists.push(ns);
        i = i + 1;
    }
    let mut i: usize = 0;
    while i < n
        invariant
            i <= n,
            n == store.agents@.len(),
            n == old(store).agents@.len(),
            n <= MAX_AGENTS as int,
            positions_within(old(store).agents@, POS_LIMIT as int + MOVE_SPEED as int),
            velocities_within(old(store).agents@, VEL_LIMIT as int),
            lists@.len() == n as int,
            forall|j: int| 0 <= j < n ==>
                (#[trigger] lists@[j]).0@ == neighbours_of(old(store).agents@, j),
            forall|j: int| i <= j < n ==> #[trigger] store.agents@[j] == old(store).agents@[j],
            forall|j: int| 0 <= j < i ==>
                same_but_velocity(old(store).agents@[j], #[trigger] store.agents@[j]),
            forall|j: int| 0 <= j < i ==> {
                let a = old(store).agents@[j];
                let b = #[trigger] store.agents@[j];
                let ns = neighbours_of(old(store).agents@, j);
                &&& b.velocity.x == a.velocity.x + align_delta(ns).x
                    + cohesion_delta(ns, a.position).x
                &&& b.velocity.y == a.velocity.y + align_delta(ns).y
                    + cohesion_delta(ns, a.position).y
                &&& abs_i(b.velocity.x - a.velocity.x) <= 2 * SCALE
                &&& abs_i(b.velocity.y - a.velocity.y) <= 2 * SCALE
            },
            forall|j: int| 0 <= j < i
                && neighbours_of(old(store).agents@, j).len() == 0
                ==> #[trigger] store.agents@[j] == old(store).agents@[j],
        decreases n - i,
    {
        let ns = &lists[i];
        if ns.0.len() > 0 {
            proof {
                lemma_nbrs_fields_bounded(old(store).agents@, i as int, n as int,
                    VEL_LIMIT as int, POS_HEADROOM as int);
            }
            let a = store.agents[i];
            let d1 = calc_alignment(ns);
            let d2 = calc_cohesion(ns, a.position);
            store.agents.set(i, Agent {
                id: a.id,
                position: a.position,
                velocity: Vec2 {
                    x: a.velocity.x + d1.x + d2.x,
                    y: a.velocity.y + d1.y + d2.y,
                },
                target: a.target,
                is_boid: a.is_boid,
                is_seeking: a.is_seeking,
            });
        } else {
            proof {
                assert(align_delta(neighbours_of(old(store).agents@, i as int))
                    == (GVec { x: 0, y: 0 }));
                assert(cohesion_delta(neighbours_of(old(store).agents@, i as int),
                    old(store).agents@[i as int].position) == (GVec { x: 0, y: 0 }));
            }
        }
        i = i + 1;
    }
}

} // verus!
