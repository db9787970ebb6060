//! Agent records and the store that owns them, with the
//! well-formedness the steering stages rely on.

use vstd::prelude::*;
use crate::vec2::{Vec2, vec_within, VEL_LIMIT, POS_LIMIT};

verus! {

/// One simulated agent: stable id, current position, the steering
/// accumulator ("velocity"), an optional target point, and the
/// capability flags of the simulation.
#[derive(Clone, Copy, Debug)]
pub struct Agent {
    pub id: u64,
    pub position: Vec2,
    pub velocity: Vec2,
    pub target: Option<Vec2>,
    pub is_boid: bool,
    pub is_seeking: bool,
}

/// What one tick records of a nearby agent: its id, and the velocity
/// and position it had when the neighbour lists were built.
#[derive(Clone, Copy, Debug)]
pub struct NeighbourRecord {
    pub id: u64,
    pub velocity: Vec2,
    pub position: Vec2,
}

/// The neighbour list of one agent; rebuilt from scratch every tick
/// and never read across tick boundaries.
pub struct Neighbours(pub Vec<NeighbourRecord>);

/// The set of agent records the simulation owns. Agents are created
/// at simulation start and never destroyed; `agents[i].id == i`.
pub struct AgentStore {
    pub agents: Vec<Agent>,
}

/// Most agents one store accepts; keeps every per-tick sum within `i64`.
pub const MAX_AGENTS: usize = 4096;

/// Per-agent bounds: velocity within `VEL_LIMIT`, target (if any)
/// within `POS_LIMIT`.
pub open spec fn agent_ok(a: Agent) -> bool {
    &&& vec_within(a.velocity, VEL_LIMIT as int)
    &&& match a.target {
        Some(t) => vec_within(t, POS_LIMIT as int),
        None => true,
    }
}

/// Every position component within `b`.
pub open spec fn positions_within(agents: Seq<Agent>, b: int) -> bool {
    forall|i: int| 0 <= i < agents.len() ==> vec_within(#[trigger] agents[i].position, b)
}

/// Every velocity component within `b`.
pub open spec fn velocities_within(agents: Seq<Agent>, b: int) -> bool {
    forall|i: int| 0 <= i < agents.len() ==> vec_within(#[trigger] agents[i].velocity, b)
}

/// Every present target within `b` per component.
pub open spec fn targets_within(agents: Seq<Agent>, b: int) -> bool {
    forall|i: int| 0 <= i < agents.len() ==> match (#[trigger] agents[i]).target {
        Some(t) => vec_within(t, b),
        None => true,
    }
}

/// The store's invariant: a bounded population, ids equal to indices
/// (hence unique), and every agent within the per-agent bounds.
pub open spec fn store_wf(agents: Seq<Agent>) -> bool {
    &&& agents.len() <= MAX_AGENTS as int
    &&& forall|i: int| 0 <= i < agents.len() ==> (#[trigger] agents[i]).id == i as u64
    &&& forall|i: int| 0 <= i < agents.len() ==> agent_ok(#[trigger] agents[i])
}

/// `b` is `a` with at most the velocity changed.
pub open spec fn same_but_velocity(a: Agent, b: Agent) -> bool {
    &&& b.id == a.id
    &&& b.position == a.position
    &&& b.target == a.target
    &&& b.is_boid == a.is_boid
    &&& b.is_seeking == a.is_seeking
}

/// `b` is `a` with at most the target changed.
pub open spec fn same_but_target(a: Agent, b: Agent) -> bool {
    &&& b.id == a.id
    &&& b.position == a.position
    &&& b.velocity == a.velocity
    &&& b.is_boid == a.is_boid
    &&& b.is_seeking == a.is_seeking
}

/// `b` is `a` with at most position and velocity changed.
pub open spec fn same_but_motion(a: Agent, b: Agent) -> bool {
    &&& b.id == a.id
    &&& b.target == a.target
    &&& b.is_boid == a.is_boid
    &&& b.is_seeking == a.is_seeking
}

impl AgentStore {
    /// A store with no agents.
    pub fn new() -> (s: Self)
        ensures
            s.agents@.len() == 0,
            store_wf(s.agents@),
    {
        AgentStore { agents: Vec::new() }
    }

    pub fn len(&self) -> (n: usize)
        ensures
            n == self.agents@.len(),
    {
        self.agents.len()
    }

    /// The current position of every agent, in index order — all a
    /// renderer needs.
    pub fn positions(&self) -> (ps: Vec<Vec2>)
        ensures
            ps@.len() == self.agents@.len(),
            forall|i: int| 0 <= i < ps@.len() ==> ps@[i] == self.agents@[i].position,
    {
        let n = self.agents.len();
        let mut ps: Vec<Vec2> = Vec::new();
        let mut i: usize = 0;
        while i < n
            invariant
                i <= n,
                n == self.agents@.len(),
                ps@.len() == i as int,
                forall|j: int| 0 <= j < i ==> ps@[j] == self.agents@[j].position,
            decreases n - i,
        {
            ps.push(self.agents[i].position);
            i = i + 1;
        }
        ps
    }
}

} // verus!
