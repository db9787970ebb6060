//! Pairwise avoidance. Every unordered pair of agents within the
//! perception radius is visited once, and the push — away from the
//! other agent, stretched to the push magnitude — goes to the first
//! (lower-index) agent of the pair only; the asymmetry is deliberate.
//! Two exactly coincident agents have no direction between them, so a
//! random tie-breaking vector bounded by the push magnitude per axis
//! stands in; no degenerate value ever reaches a velocity. All deltas
//! of one agent are accumulated first and applied in one step.

use vstd::prelude::*;
use vstd::pervasive::VecAdditionalExecFns;
use crate::vec2::{Vec2, GVec, vec_within, eqg, gv, gscale, abs_i, distance_sq,
    scale_to_length, PUSH_MAG, PERCEPTION_RADIUS, POS_HEADROOM, SCALE};
use crate::agent::{Agent, AgentStore, same_but_velocity, positions_within,
    velocities_within, MAX_AGENTS};
use crate::flocking::near;
use crate::rng::random_in_range;

verus! {

/// Velocities the avoidance pass accepts.
pub const AVOID_VEL_LIMIT: i64 = 1_500_000_000;

/// Most one velocity component can change in one avoidance pass:
/// at most `MAX_AGENTS` partners push at most `PUSH_MAG` each.
pub const AVOID_TOTAL_MAX: i64 = 102_400_000;

/// A tie-breaking vector: within the push magnitude per axis.
pub open spec fn tie_ok(t: Vec2) -> bool {
    vec_within(t, PUSH_MAG as int)
}

/// What one close pair adds to its first agent's velocity: the
/// direction from `b` toward `a`, stretched to the push magnitude —
/// or, for exactly coincident positions, the tie-breaking vector.
pub open spec fn avoid_pair(a: Vec2, b: Vec2, tie: Vec2) -> GVec {
    if a == b {
        gv(tie)
    } else {
        gscale(a.x - b.x, a.y - b.y, PUSH_MAG as int)
    }
}

/// The positions of all agents, in index order.
pub open spec fn positions_of(agents: Seq<Agent>) -> Seq<Vec2> {
    Seq::new(agents.len(), |i: int| agents[i].position)
}

/// The accumulated avoidance delta of agent `i` over the pairs
/// `(i, jj)` with `i < jj < j`, with `ties[jj]` breaking a coincident
/// pair `(i, jj)`.
pub open spec fn avoid_acc(ps: Seq<Vec2>, ties: Seq<Vec2>, i: int, j: int) -> GVec
    decreases j - i,
{
    if j <= i + 1 {
        (GVec { x: 0, y: 0 })
    } else if near(ps[i], ps[j - 1]) {
        let pre = avoid_acc(ps, ties, i, j - 1);
        let d = avoid_pair(ps[i], ps[j - 1], ties[j - 1]);
        (GVec { x: pre.x + d.x, y: pre.y + d.y })
    } else {
        avoid_acc(ps, ties, i, j - 1)
    }
}

/// `avoid_acc` reads only the ties of partners below `j`.
proof fn lemma_avoid_acc_ties_agree(ps: Seq<Vec2>, t1: Seq<Vec2>, t2: Seq<Vec2>, i: int, j: int)
    requires
        forall|k: int| i < k < j ==> t1[k] == t2[k],
    ensures
        avoid_acc(ps, t1, i, j) == avoid_acc(ps, t2, i, j),
    decreases j - i,
{
    if j > i + 1 {
        lemma_avoid_acc_ties_agree(ps, t1, t2, i, j - 1);
    }
}

/// Some admissible tie vector explains agent `i`'s new velocity.
pub open spec fn avoid_applied(pre: Seq<Agent>, post: Seq<Agent>, i: int) -> bool {
    exists|ts: Seq<Vec2>| avoid_outcome(pre, post, ts, i)
}

/// An avoidance outcome for agent `j` only reads entry `j` of the
/// after-state, so any state agreeing there has the same outcome.
proof fn lemma_avoid_outcome_frame(pre: Seq<Agent>, post1: Seq<Agent>, post2: Seq<Agent>, j: int)
    requires
        avoid_applied(pre, post1, j),
        post2[j] == post1[j],
    ensures
        avoid_applied(pre, post2, j),
{
    let ts = choose|ts: Seq<Vec2>| avoid_outcome(pre, post1, ts, j);
    assert(avoid_outcome(pre, post2, ts, j));
}

/// One avoidance pass left agent `i` of `post` with the velocity of
/// `pre` plus its accumulated avoidance delta under the ties `ts`.
pub open spec fn avoid_outcome(pre: Seq<Agent>, post: Seq<Agent>, ts: Seq<Vec2>, i: int) -> bool {
    &&& ts.len() == pre.len()
    &&& (forall|k: int| 0 <= k < ts.len() ==> tie_ok(#[trigger] ts[k]))
    &&& post[i].velocity.x == pre[i].velocity.x
        + avoid_acc(positions_of(pre), ts, i, pre.len() as int).x
    &&& post[i].velocity.y == pre[i].velocity.y
        + avoid_acc(positions_of(pre), ts, i, pre.len() as int).y
}

/// One run of the avoidance stage: every agent's velocity gains its
/// accumulated pairwise push, explained by some admissible tie
/// vectors; nothing else changes.
pub open spec fn avoidance_applied(pre: Seq<Agent>, post: Seq<Agent>) -> bool {
    &&& post.len() == pre.len()
    &&& (forall|i: int| 0 <= i < pre.len() ==> same_but_velocity(pre[i], #[trigger] post[i]))
    &&& (forall|i: int| 0 <= i < pre.len() ==> #[trigger] avoid_applied(pre, post, i))
}

/// The push a close pair `(a, b)` gives its first agent: away from
/// `b`, with magnitude `PUSH_MAG`; for coincident positions a random
/// tie-breaking vector, bounded by `PUSH_MAG` per axis, stands in.
pub fn calc_avoidance(a: Vec2, b: Vec2) -> (r: Vec2)
    requires
        vec_within(a, POS_HEADROOM as int),
        vec_within(b, POS_HEADROOM as int),
    ensures
        a != b ==> eqg(r, gscale(a.x - b.x, a.y - b.y, PUSH_MAG as int)),
        a == b ==> tie_ok(r),
        vec_within(r, PUSH_MAG as int),
{
    if a.x == b.x && a.y == b.y {
        let tx = random_in_range(-SCALE, SCALE);
        let ty = random_in_range(-SCALE, SCALE);
        Vec2 { x: tx * 25, y: ty * 25 }
    } else {
        scale_to_length(Vec2 { x: a.x - b.x, y: a.y - b.y }, PUSH_MAG)
    }
}

/// Visit every unordered pair once, in index order; where the two
/// agents are within the perception radius, accumulate the push into
/// the pair's first agent, and apply each agent's accumulated delta in
/// one step. Positions, targets and flags are untouched; an agent with
/// no close later partner keeps its record exactly.
pub fn boid_avoidance(store: &mut AgentStore)
    requires
        old(store).agents@.len() <= MAX_AGENTS as int,
        positions_within(old(store).agents@, POS_HEADROOM as int),
        velocities_within(old(store).agents@, AVOID_VEL_LIMIT as int),
    ensures
        avoidance_applied(old(store).agents@, final(store).agents@),
        final(store).agents@.len() == old(store).agents@.len(),
        forall|i: int| 0 <= i < old(store).agents@.len() ==>
            same_but_velocity(old(store).agents@[i], #[trigger] final(store).agents@[i]),
        forall|i: int| 0 <= i < old(store).agents@.len() ==>
            avoid_applied(old(store).agents@, final(store).agents@, i),
        forall|i: int| 0 <= i < old(store).agents@.len() ==> {
            let a = old(store).agents@[i];
            let b = #[trigger] final(store).agents@[i];
            abs_i(b.velocity.x - a.velocity.x) <= AVOID_TOTAL_MAX
                && abs_i(b.velocity.y - a.velocity.y) <= AVOID_TOTAL_MAX
        },
        forall|i: int| 0 <= i < old(store).agents@.len()
            && (forall|jj: int| i < jj < old(store).agents@.len()
                ==> !near(old(store).agents@[i].position,
                    (#[trigger] old(store).agents@[jj]).position))
            ==> #[trigger] final(store).agents@[i] == old(store).agents@[i],
{
    let n = store.agents.len();
    let ghost ps = positions_of(old(store).agents@);
    let mut i: usize = 0;
    while i < n
        invariant
            i <= n,
            n == store.agents@.len(),
            n == old(store).agents@.len(),
            n <= MAX_AGENTS as int,
            ps == positions_of(old(store).agents@),
            positions_within(old(store).agents@, POS_HEADROOM as int),
            velocities_within(old(store).agents@, AVOID_VEL_LIMIT as int),
            forall|j: int| i <= j < n ==> #[trigger] store.agents@[j] == old(store).agents@[j],
            forall|j: int| 0 <= j < i ==>
                same_but_velocity(old(store).agents@[j], #[trigger] store.agents@[j]),
            forall|j: int| 0 <= j < i ==>
                avoid_applied(old(store).agents@, store.agents@, j),
            forall|j: int| 0 <= j < i ==> {
                let a = old(store).agents@[j];
                let b = #[trigger] store.agents@[j];
                abs_i(b.velocity.x - a.velocity.x) <= AVOID_TOTAL_MAX
                    && abs_i(b.velocity.y - a.velocity.y) <= AVOID_TOTAL_MAX
            },
            forall|j: int| 0 <= j < i
                && (forall|jj: int| j < jj < n
                    ==> !near(old(store).agents@[j].position,
                        (#[trigger] old(store).agents@[jj]).position))
                ==> #[trigger] store.agents@[j] == old(store).agents@[j],
        decreases n - i,
    {
        let a = store.agents[i];
        let mut accx: i64 = 0;
        let mut accy: i64 = 0;
        let ghost mut ts: Seq<Vec2> = Seq::new(n as nat, |k: int| Vec2 { x: 0, y: 0 });
        let mut j: usize = i + 1;
        while j < n
            invariant
                i < n,
                i + 1 <= j <= n,
                n == store.agents@.len(),
                n == old(store).agents@.len(),
                n <= MAX_AGENTS as int,
                ps == positions_of(old(store).agents@),
                positions_within(old(store).agents@, POS_HEADROOM as int),
                a == old(store).agents@[i as int],
                forall|jj: int| i <= jj < n
                    ==> #[trigger] store.agents@[jj] == old(store).agents@[jj],
                ts.len() == n as int,
                forall|k: int| 0 <= k < ts.len() ==> tie_ok(#[trigger] ts[k]),
                accx as int == avoid_acc(ps, ts, i as int, j as int).x,
                accy as int == avoid_acc(ps, ts, i as int, j as int).y,
                abs_i(accx as int) <= (j as int - i as int - 1) * (PUSH_MAG as int),
                abs_i(accy as int) <= (j as int - i as int - 1) * (PUSH_MAG as int),
                (forall|jj: int| i < jj < j
                    ==> !near(old(store).agents@[i as int].position,
                        (#[trigger] old(store).agents@[jj]).position))
                    ==> (accx == 0 && accy == 0),
            decreases n - j,
        {
            let b = store.agents[j];
            let d = distance_sq(a.position, b.position);
            proof {
                assert(ps[i as int] == a.position);
                assert(ps[j as int] == b.position);
            }
            if d <= PERCEPTION_RADIUS * PERCEPTION_RADIUS {
                let dv = calc_avoidance(a.position, b.position);
                proof {
                    let ts0 = ts;
                    if a.position == b.position {
                        ts = ts.update(j as int, dv);
                        lemma_avoid_acc_ties_agree(ps, ts0, ts, i as int, j as int);
                        assert(ts[j as int] == dv);
                    }
                    assert(avoid_pair(ps[i as int], ps[j as int], ts[j as int])
                        == (GVec { x: dv.x as int, y: dv.y as int }));
                    assert(avoid_acc(ps, ts, i as int, j as int + 1).x
                        == avoid_acc(ps, ts, i as int, j as int).x + dv.x);
                    assert(avoid_acc(ps, ts, i as int, j as int + 1).y
                        == avoid_acc(ps, ts, i as int, j as int).y + dv.y);
                }
                accx = accx + dv.x;
                accy = accy + dv.y;
            } else {
                proof {
                    assert(avoid_acc(ps, ts, i as int, j as int + 1)
                        == avoid_acc(ps, ts, i as int, j as int));
                }
            }
            j = j + 1;
        }
        let ghost prev = store.agents@;
        store.agents.set(i, Agent {
            id: a.id,
            position: a.position,
            velocity: Vec2 { x: a.velocity.x + accx, y: a.velocity.y + accy },
            target: a.target,
            is_boid: a.is_boid,
            is_seeking: a.is_seeking,
        });
        proof {
            assert(avoid_outcome(old(store).agents@, store.agents@, ts, i as int));
            assert(avoid_applied(old(store).agents@, store.agents@, i as int));
            assert forall|jx: int| 0 <= jx < i implies
                avoid_applied(old(store).agents@, store.agents@, jx) by {
                assert(store.agents@[jx] == prev[jx]);
                lemma_avoid_outcome_frame(old(store).agents@, prev, store.agents@, jx);
            }
        }
        i = i + 1;
    }
}

} // verus!
