//! Global laws of the simulation, stated over the spec functions the
//! stage contracts use and proved once and for all.

use vstd::prelude::*;
use crate::vec2::{Vec2, GVec, vec_within, is_zero, dist_sq, mag_sq_g, abs_i, sgn_apply,
    is_sqrt, sqrt_floor, lemma_sqrt_floor_eq, lemma_sqrt_floor_ge_component,
    PERCEPTION_RADIUS, MOVE_SPEED, COMP_LIMIT, POS_HEADROOM, PUSH_MAG};
use crate::agent::{Agent, NeighbourRecord, store_wf};
use crate::avoid::{avoid_pair, tie_ok};
use crate::flocking::{neighbours_of, align_delta, cohesion_delta, lemma_nbrs_sound,
    within_perception, rec_of};
use crate::motion::step_vec;

verus! {

/// Squared distance is symmetric.
pub proof fn lemma_dist_sq_symmetric(a: Vec2, b: Vec2)
    ensures
        dist_sq(a, b) == dist_sq(b, a),
{
    assert((a.x - b.x) * (a.x - b.x) == (b.x - a.x) * (b.x - a.x)) by (nonlinear_arith);
    assert((a.y - b.y) * (a.y - b.y) == (b.y - a.y) * (b.y - a.y)) by (nonlinear_arith);
}

/// Two agents farther apart than the perception radius never list
/// each other as neighbours: with ids equal to indices, neither id
/// occurs in the other agent's neighbour list.
pub proof fn lemma_far_pair_not_neighbours(agents: Seq<Agent>, i: int, j: int)
    requires
        0 <= i < agents.len(),
        0 <= j < agents.len(),
        i != j,
        store_wf(agents),
        dist_sq(agents[i].position, agents[j].position)
            > PERCEPTION_RADIUS * PERCEPTION_RADIUS,
    ensures
        forall|k: int| 0 <= k < neighbours_of(agents, i).len() ==>
            (#[trigger] neighbours_of(agents, i)[k]).id != agents[j].id,
        forall|k: int| 0 <= k < neighbours_of(agents, j).len() ==>
            (#[trigger] neighbours_of(agents, j)[k]).id != agents[i].id,
{
    lemma_dist_sq_symmetric(agents[i].position, agents[j].position);
    lemma_nbrs_sound(agents, i, agents.len() as int);
    lemma_nbrs_sound(agents, j, agents.len() as int);
    assert forall|k: int| 0 <= k < neighbours_of(agents, i).len() implies
        (#[trigger] neighbours_of(agents, i)[k]).id != agents[j].id by {
        let jj = choose|jj: int| 0 <= jj < agents.len() && jj != i
            && within_perception(agents[i], agents[jj])
            && #[trigger] neighbours_of(agents, i)[k] == rec_of(agents[jj]);
        if neighbours_of(agents, i)[k].id == agents[j].id {
            assert(agents[jj].id == jj as u64);
            assert(jj == j);
            assert(false);
        }
    }
    assert forall|k: int| 0 <= k < neighbours_of(agents, j).len() implies
        (#[trigger] neighbours_of(agents, j)[k]).id != agents[i].id by {
        let jj = choose|jj: int| 0 <= jj < agents.len() && jj != j
            && within_perception(agents[j], agents[jj])
            && #[trigger] neighbours_of(agents, j)[k] == rec_of(agents[jj]);
        if neighbours_of(agents, j)[k].id == agents[i].id {
            assert(agents[jj].id == jj as u64);
            assert(jj == i);
            assert(false);
        }
    }
}

/// No agent ever lists itself as a neighbour: with ids equal to
/// indices, an agent's own id never occurs in its neighbour list.
pub proof fn lemma_no_self_neighbour(agents: Seq<Agent>, i: int)
    requires
        0 <= i < agents.len(),
        store_wf(agents),
    ensures
        forall|k: int| 0 <= k < neighbours_of(agents, i).len() ==>
            (#[trigger] neighbours_of(agents, i)[k]).id != agents[i].id,
{
    lemma_nbrs_sound(agents, i, agents.len() as int);
    assert forall|k: int| 0 <= k < neighbours_of(agents, i).len() implies
        (#[trigger] neighbours_of(agents, i)[k]).id != agents[i].id by {
        let jj = choose|jj: int| 0 <= jj < agents.len() && jj != i
            && within_perception(agents[i], agents[jj])
            && #[trigger] neighbours_of(agents, i)[k] == rec_of(agents[jj]);
        if neighbours_of(agents, i)[k].id == agents[i].id {
            assert(agents[jj].id == jj as u64);
            assert(jj == i);
            assert(false);
        }
    }
}

/// An empty neighbour list steers nothing: alignment and cohesion
/// both contribute the zero vector, so any velocity stays as it is.
pub proof fn lemma_empty_neighbours_no_steering(ns: Seq<NeighbourRecord>, p: Vec2, v: Vec2)
    requires
        ns.len() == 0,
    ensures
        align_delta(ns) == (GVec { x: 0, y: 0 }),
        cohesion_delta(ns, p) == (GVec { x: 0, y: 0 }),
        v.x + align_delta(ns).x + cohesion_delta(ns, p).x == v.x,
        v.y + align_delta(ns).y + cohesion_delta(ns, p).y == v.y,
{
}

/// The avoidance push is always finite and bounded: whatever pair of
/// positions it is applied to — coincident ones included, where the
/// tie-breaking vector stands in — no component exceeds the push
/// magnitude.
pub proof fn lemma_avoidance_push_bounded(a: Vec2, b: Vec2, tie: Vec2)
    requires
        tie_ok(tie),
        vec_within(a, POS_HEADROOM as int),
        vec_within(b, POS_HEADROOM as int),
    ensures
        -PUSH_MAG <= avoid_pair(a, b, tie).x <= PUSH_MAG,
        -PUSH_MAG <= avoid_pair(a, b, tie).y <= PUSH_MAG,
{
    if a != b {
        let dx = a.x - b.x;
        let dy = a.y - b.y;
        let adx = abs_i(dx);
        let ady = abs_i(dy);
        let ms = mag_sq_g(dx, dy);
        assert(ms == adx * adx + ady * ady && adx * adx >= 0 && ady * ady >= 0
            && (adx >= 1 ==> adx * adx >= 1) && (ady >= 1 ==> ady * ady >= 1))
            by (nonlinear_arith)
            requires adx == abs_i(dx), ady == abs_i(dy), ms == mag_sq_g(dx, dy);
        assert(ms >= 1);
        lemma_sqrt_floor_exists(ms);
        let m = sqrt_floor(ms);
        if m == 0 {
            assert((m + 1) * (m + 1) == 1) by (nonlinear_arith)
                requires m == 0;
            assert(false);
        }
        lemma_sqrt_floor_ge_component(dx, dy, adx);
        lemma_sqrt_floor_ge_component(dx, dy, ady);
        crate::vec2::lemma_scale_div_bounded(dx, PUSH_MAG as int, m);
        crate::vec2::lemma_scale_div_bounded(dy, PUSH_MAG as int, m);
    }
}

/// A floor square root exists for every non-negative integer.
pub proof fn lemma_sqrt_floor_exists(n: int)
    requires
        0 <= n,
    ensures
        is_sqrt(n, sqrt_floor(n)),
    decreases n,
{
    if n == 0 {
        assert((0 + 1) * (0 + 1) == 1) by (nonlinear_arith);
        assert(is_sqrt(0, 0));
    } else {
        lemma_sqrt_floor_exists(n - 1);
        let q = sqrt_floor(n - 1);
        if n < (q + 1) * (q + 1) {
            assert(is_sqrt(n, q));
        } else {
            assert(n == (q + 1) * (q + 1));
            assert((q + 1 + 1) * (q + 1 + 1) > (q + 1) * (q + 1)) by (nonlinear_arith)
                requires q >= 0;
            assert(is_sqrt(n, q + 1));
        }
    }
}

/// The translation step of a non-zero velocity keeps its magnitude at
/// the fixed step length as closely as the grid allows: no component
/// exceeds the step length, the dominant component reaches at least
/// half of it, and a velocity along one axis steps exactly the step
/// length along that axis.
pub proof fn lemma_step_within_speed(v: Vec2)
    requires
        !is_zero(v),
        vec_within(v, COMP_LIMIT as int),
    ensures
        -MOVE_SPEED <= step_vec(v).x <= MOVE_SPEED,
        -MOVE_SPEED <= step_vec(v).y <= MOVE_SPEED,
        abs_i(step_vec(v).x) >= MOVE_SPEED / 2 || abs_i(step_vec(v).y) >= MOVE_SPEED / 2,
        v.y == 0 ==> step_vec(v) == (GVec { x: sgn_apply(v.x as int, MOVE_SPEED as int), y: 0 }),
        v.x == 0 ==> step_vec(v) == (GVec { x: 0, y: sgn_apply(v.y as int, MOVE_SPEED as int) }),
{
    let ax = abs_i(v.x as int);
    let ay = abs_i(v.y as int);
    let ms = mag_sq_g(v.x as int, v.y as int);
    assert(ms == ax * ax + ay * ay && ax * ax >= 0 && ay * ay >= 0
        && (ax >= 1 ==> ax * ax >= 1) && (ay >= 1 ==> ay * ay >= 1)) by (nonlinear_arith)
        requires ax == abs_i(v.x as int), ay == abs_i(v.y as int),
            ms == mag_sq_g(v.x as int, v.y as int);
    assert(ms >= 1);
    lemma_sqrt_floor_exists(ms);
    let m = sqrt_floor(ms);
    if m == 0 {
        assert((m + 1) * (m + 1) == 1) by (nonlinear_arith)
            requires m == 0;
        assert(false);
    }
    lemma_sqrt_floor_ge_component(v.x as int, v.y as int, ax);
    lemma_sqrt_floor_ge_component(v.x as int, v.y as int, ay);
    crate::vec2::lemma_scale_div_bounded(v.x as int, MOVE_SPEED as int, m);
    crate::vec2::lemma_scale_div_bounded(v.y as int, MOVE_SPEED as int, m);
    let dom = if ax >= ay { ax } else { ay };
    assert(dom >= 1);
    assert(ms <= 2 * (dom * dom)) by (nonlinear_arith)
        requires 0 <= ax <= dom, 0 <= ay <= dom, ms == ax * ax + ay * ay;
    if m > 2 * dom - 1 {
        assert(m * m > 2 * (dom * dom)) by (nonlinear_arith)
            requires m >= 2 * dom, dom >= 1;
        assert(false);
    }
    assert(dom * (MOVE_SPEED as int) >= 0) by (nonlinear_arith)
        requires dom >= 0;
    vstd::arithmetic::div_mod::lemma_div_pos_is_pos(dom * (MOVE_SPEED as int), m);
    vstd::arithmetic::div_mod::lemma_div_is_ordered_by_denominator(
        dom * (MOVE_SPEED as int), m, 2 * dom);
    assert(dom * (MOVE_SPEED as int) == (2 * dom) * (MOVE_SPEED as int / 2)) by (nonlinear_arith)
        requires MOVE_SPEED as int == 2 * (MOVE_SPEED as int / 2);
    vstd::arithmetic::div_mod::lemma_div_multiples_vanish(MOVE_SPEED as int / 2, 2 * dom);
    assert((dom * (MOVE_SPEED as int)) / m >= MOVE_SPEED as int / 2);
    if v.y == 0 {
        assert(ay * ay == 0) by (nonlinear_arith)
            requires ay == 0;
        assert(ax * ax < (ax + 1) * (ax + 1)) by (nonlinear_arith)
            requires ax >= 0;
        assert(is_sqrt(ms, ax));
        lemma_sqrt_floor_eq(ms, ax);
        vstd::arithmetic::div_mod::lemma_div_multiples_vanish(MOVE_SPEED as int, m);
    }
    if v.x == 0 {
        assert(ax * ax == 0) by (nonlinear_arith)
            requires ax == 0;
        assert(ay * ay < (ay + 1) * (ay + 1)) by (nonlinear_arith)
            requires ay >= 0;
        assert(is_sqrt(ms, ay));
        lemma_sqrt_floor_eq(ms, ay);
        vstd::arithmetic::div_mod::lemma_div_multiples_vanish(MOVE_SPEED as int, m);
    }
}

} // verus!
