//! The agent data model: the executable agent record, the lightweight
//! snapshot taken of it each tick, and the mathematical models that the
//! kernel's contracts are stated over.

use vstd::prelude::*;

use crate::countdown::Countdown;

verus! {

/// An immutable snapshot of one agent's identity, display name and grid
/// position, taken at the start of an adjacency recomputation. Neighbour
/// lists hold values of this type.
#[derive(Debug)]
pub struct AgentView {
    pub id: u64,
    pub name: String,
    pub x: i32,
    pub y: i32,
}

/// The mathematical model of a snapshot: the same identity, name and
/// position, with the name as a sequence of characters.
pub struct AgentInfo {
    pub id: u64,
    pub name: Seq<char>,
    pub x: i32,
    pub y: i32,
}

impl AgentView {
    /// The snapshot's mathematical model.
    pub open spec fn info(&self) -> AgentInfo {
        AgentInfo { id: self.id, name: self.name@, x: self.x, y: self.y }
    }

    /// An independent copy of the snapshot.
    pub fn duplicate(&self) -> (r: AgentView)
        ensures
            r.info() == self.info(),
    {
        AgentView { id: self.id, name: self.name.clone(), x: self.x, y: self.y }
    }
}

/// The models of a sequence of snapshots, in the same order.
pub open spec fn infos(s: Seq<AgentView>) -> Seq<AgentInfo> {
    s.map_values(|v: AgentView| v.info())
}

/// One live agent: stable identity, display name, grid position, the
/// optional "controlled" designation, the optional countdown capability, and
/// the neighbour list recomputed each tick.
pub struct Agent {
    pub id: u64,
    pub name: String,
    pub x: i32,
    pub y: i32,
    pub controlled: bool,
    pub countdown: Option<Countdown>,
    pub neighbours: Vec<AgentView>,
}

/// The mathematical model of one live agent.
pub struct AgentModel {
    pub id: u64,
    pub name: Seq<char>,
    pub x: i32,
    pub y: i32,
    pub controlled: bool,
    pub countdown: Option<Countdown>,
    pub neighbours: Seq<AgentInfo>,
}

impl Agent {
    /// The agent's mathematical model.
    pub open spec fn model(&self) -> AgentModel {
        AgentModel {
            id: self.id,
            name: self.name@,
            x: self.x,
            y: self.y,
            controlled: self.controlled,
            countdown: self.countdown,
            neighbours: infos(self.neighbours@),
        }
    }

    /// The snapshot model the agent contributes to an adjacency pass.
    pub open spec fn info(&self) -> AgentInfo {
        self.model().info()
    }
}

impl AgentModel {
    /// The identity, name and position part of the model.
    pub open spec fn info(&self) -> AgentInfo {
        AgentInfo { id: self.id, name: self.name, x: self.x, y: self.y }
    }

    /// The same agent at another position.
    pub open spec fn at_position(&self, x: i32, y: i32) -> AgentModel {
        AgentModel { x, y, ..*self }
    }

    /// The same agent with its neighbour list replaced wholesale.
    pub open spec fn with_neighbours(&self, neighbours: Seq<AgentInfo>) -> AgentModel {
        AgentModel { neighbours, ..*self }
    }

    /// The same agent with its countdown state replaced.
    pub open spec fn with_countdown(&self, countdown: Option<Countdown>) -> AgentModel {
        AgentModel { countdown, ..*self }
    }
}

/// The snapshot models of a sequence of agent models, in the same order.
pub open spec fn model_infos(s: Seq<AgentModel>) -> Seq<AgentInfo> {
    s.map_values(|a: AgentModel| a.info())
}

} // verus!
