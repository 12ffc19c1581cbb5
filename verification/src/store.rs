//! The Agent Store: the single authoritative, insertion-ordered collection
//! of live agents.
//!
//! The store owns stable identity (handles are never reused while an agent is
//! live), supports insertion, lookup, position updates and removal, and
//! exposes index-based iteration whose order is insertion order, so paired
//! iteration over the same store within one tick is deterministic.

use vstd::prelude::*;

use crate::KernelError;
use crate::agent::{Agent, AgentModel, AgentView, infos};
use crate::countdown::{Countdown, pulse_spec};

verus! {

/// The models of a sequence of live agents, in the same order.
pub open spec fn models(s: Seq<Agent>) -> Seq<AgentModel> {
    s.map_values(|a: Agent| a.model())
}

/// Whether some live agent carries the handle `h`.
pub open spec fn has_handle(s: Seq<AgentModel>, h: u64) -> bool {
    exists|i: int| 0 <= i < s.len() && s[i].id == h
}

/// Whether some live agent carries the "controlled" designation.
pub open spec fn has_controlled(s: Seq<AgentModel>) -> bool {
    exists|i: int| 0 <= i < s.len() && s[i].controlled
}

/// The countdown attached to a freshly created agent: a full countdown for a
/// production agent, none otherwise.
pub open spec fn countdown_init(total_ticks: Option<u32>) -> Option<Countdown> {
    match total_ticks {
        Some(t) => Some(Countdown { total_ticks: t, ticks_remaining: t, count: 0 }),
        None => None,
    }
}

/// The model of a freshly created agent.
pub open spec fn fresh_agent(
    id: u64,
    name: Seq<char>,
    x: i32,
    y: i32,
    controlled: bool,
    total_ticks: Option<u32>,
) -> AgentModel {
    AgentModel {
        id,
        name,
        x,
        y,
        controlled,
        countdown: countdown_init(total_ticks),
        neighbours: Seq::empty(),
    }
}

/// The authoritative set of agents, in insertion order.
pub struct AgentStore {
    agents: Vec<Agent>,
    next_id: u64,
}

impl View for AgentStore {
    type V = Seq<AgentModel>;

    closed spec fn view(&self) -> Seq<AgentModel> {
        models(self.agents@)
    }
}

impl AgentStore {
    /// The handle the next created agent will receive. Handles are issued in
    /// increasing order and never reused.
    pub closed spec fn next_handle(&self) -> u64 {
        self.next_id
    }

    /// Store invariants: handles are unique and all below the next free
    /// handle, at most one agent is controlled, and every attached countdown
    /// is well-formed.
    pub open spec fn wf(&self) -> bool {
        &&& forall|i: int, j: int|
            0 <= i < self@.len() && 0 <= j < self@.len() && i != j ==> self@[i].id != self@[j].id
        &&& forall|i: int| 0 <= i < self@.len() ==> #[trigger] self@[i].id < self.next_handle()
        &&& forall|i: int, j: int|
            0 <= i < self@.len() && 0 <= j < self@.len() && self@[i].controlled
                && self@[j].controlled ==> i == j
        &&& forall|i: int|
            0 <= i < self@.len() ==> (#[trigger] self@[i].countdown matches Some(c) ==> c.wf())
    }

    /// An empty store.
    pub fn new() -> (s: AgentStore)
        ensures
            s.wf(),
            s@ == Seq::<AgentModel>::empty(),
            s.next_handle() == 0,
    {
        let s = AgentStore { agents: Vec::new(), next_id: 0 };
        proof {
            assert(s@ =~= Seq::<AgentModel>::empty());
        }
        s
    }

    /// The number of live agents.
    pub fn len(&self) -> (n: usize)
        ensures
            n == self@.len(),
    {
        self.agents.len()
    }

    /// Create an agent with a fresh handle, appended in insertion order.
    /// Requesting a second controlled agent, or a production countdown of
    /// zero total ticks, is malformed and rejected here.
    pub fn create(
        &mut self,
        name: String,
        x: i32,
        y: i32,
        controlled: bool,
        total_ticks: Option<u32>,
    ) -> (r: Result<u64, KernelError>)
        requires
            old(self).wf(),
            old(self).next_handle() < u64::MAX,
        ensures
            final(self).wf(),
            r is Ok <==> (!(controlled && has_controlled(old(self)@)) && total_ticks != Some(
                0u32,
            )),
            r matches Ok(h) ==> {
                &&& h == old(self).next_handle()
                &&& final(self)@ == old(self)@.push(
                    fresh_agent(h, name@, x, y, controlled, total_ticks),
                )
                &&& final(self).next_handle() == old(self).next_handle() + 1
            },
            r is Err ==> final(self)@ == old(self)@ && final(self).next_handle() == old(self).next_handle(),
            r matches Err(e) ==> e == KernelError::InvalidConfig,
    {
        if controlled {
            let existing = self.controlled_index();
            if existing.is_some() {
                return Err(KernelError::InvalidConfig);
            }
        }
        if let Some(t) = total_ticks {
            if t == 0 {
                return Err(KernelError::InvalidConfig);
            }
        }
        let countdown: Option<Countdown> = match total_ticks {
            Some(t) => Some(Countdown { total_ticks: t, ticks_remaining: t, count: 0 }),
            None => None,
        };
        let id = self.next_id;
        let agent = Agent { id, name, x, y, controlled, countdown, neighbours: Vec::new() };
        proof {
            assert(models(self.agents@.push(agent)) =~= models(self.agents@).push(agent.model()));
            assert(agent.model().neighbours =~= Seq::<crate::agent::AgentInfo>::empty());
        }
        self.agents.push(agent);
        self.next_id = id + 1;
        Ok(id)
    }

    /// The index of the controlled agent, if one exists.
    pub fn controlled_index(&self) -> (r: Option<usize>)
        ensures
            match r {
                Some(i) => i < self@.len() && self@[i as int].controlled,
                None => forall|i: int| 0 <= i < self@.len() ==> !self@[i].controlled,
            },
    {
        let n = self.agents.len();
        let mut i: usize = 0;
        while i < n
            invariant
                n == self@.len(),
                i <= n,
                forall|k: int| 0 <= k < i ==> !self@[k].controlled,
            decreases n - i,
        {
            if self.agents[i].controlled {
                return Some(i);
            }
            i = i + 1;
        }
        None
    }

    /// The index of the agent carrying handle `h`, if it is live.
    pub fn index_of(&self, h: u64) -> (r: Option<usize>)
        ensures
            match r {
                Some(i) => i < self@.len() && self@[i as int].id == h,
                None => !has_handle(self@, h),
            },
    {
        let n = self.agents.len();
        let mut i: usize = 0;
        while i < n
            invariant
                n == self@.len(),
                i <= n,
                forall|k: int| 0 <= k < i ==> self@[k].id != h,
            decreases n - i,
        {
            if self.agents[i].id == h {
                return Some(i);
            }
            i = i + 1;
        }
        None
    }

    /// A snapshot of the agent at index `i`: identity, name and position.
    pub fn view_at(&self, i: usize) -> (r: AgentView)
        requires
            i < self@.len(),
        ensures
            r.info() == self@[i as int].info(),
    {
        let a = &self.agents[i];
        AgentView { id: a.id, name: a.name.clone(), x: a.x, y: a.y }
    }

    /// A snapshot of every agent, in insertion order. This is the immutable
    /// snapshot the Adjacency Engine computes over.
    pub fn snapshot(&self) -> (r: Vec<AgentView>)
        ensures
            infos(r@) == crate::agent::model_infos(self@),
    {
        let n = self.agents.len();
        let mut r: Vec<AgentView> = Vec::new();
        let mut i: usize = 0;
        while i < n
            invariant
                n == self@.len(),
                i <= n,
                r@.len() == i,
                forall|k: int| 0 <= k < i ==> (#[trigger] r@[k]).info() == self@[k].info(),
            decreases n - i,
        {
            let v = self.view_at(i);
            r.push(v);
            i = i + 1;
        }
        proof {
            assert(infos(r@) =~= crate::agent::model_infos(self@));
        }
        r
    }

    /// Resolve a handle to a snapshot of the agent carrying it.
    pub fn get(&self, h: u64) -> (r: Result<AgentView, KernelError>)
        ensures
            r is Ok <==> has_handle(self@, h),
            r matches Ok(v) ==> exists|i: int|
                0 <= i < self@.len() && self@[i].id == h && v.info() == self@[i].info(),
            r matches Err(e) ==> e == KernelError::NotFound,
    {
        match self.index_of(h) {
            Some(i) => Ok(self.view_at(i)),
            None => Err(KernelError::NotFound),
        }
    }

    /// Overwrite the position of the agent at index `i`.
    pub fn set_position_at(&mut self, i: usize, x: i32, y: i32)
        requires
            i < old(self)@.len(),
        ensures
            final(self)@ == old(self)@.update(i as int, old(self)@[i as int].at_position(x, y)),
            final(self).next_handle() == old(self).next_handle(),
            old(self).wf() ==> final(self).wf(),
    {
        self.agents[i].x = x;
        self.agents[i].y = y;
        proof {
            assert(self@ =~= old(self)@.update(i as int, old(self)@[i as int].at_position(x, y)));
        }
    }

    /// Overwrite the position of the agent carrying handle `h`. A dead
    /// handle is reported, never a fault.
    pub fn set_position(&mut self, h: u64, x: i32, y: i32) -> (r: Result<(), KernelError>)
        ensures
            r is Ok <==> has_handle(old(self)@, h),
            r matches Ok(()) ==> exists|i: int|
                0 <= i < old(self)@.len() && old(self)@[i].id == h && final(self)@ == old(
                    self,
                )@.update(i, old(self)@[i].at_position(x, y)),
            r is Err ==> final(self)@ == old(self)@,
            r matches Err(e) ==> e == KernelError::NotFound,
            final(self).next_handle() == old(self).next_handle(),
            old(self).wf() ==> final(self).wf(),
    {
        match self.index_of(h) {
            Some(i) => {
                self.set_position_at(i, x, y);
                Ok(())
            },
            None => Err(KernelError::NotFound),
        }
    }

    /// Remove the agent carrying handle `h`, keeping the insertion order of
    /// the remaining agents. Its handle is never reused.
    pub fn remove(&mut self, h: u64) -> (r: Result<(), KernelError>)
        ensures
            r is Ok <==> has_handle(old(self)@, h),
            r matches Ok(()) ==> exists|i: int|
                0 <= i < old(self)@.len() && old(self)@[i].id == h && final(self)@ == old(
                    self,
                )@.remove(i),
            r is Err ==> final(self)@ == old(self)@,
            r matches Err(e) ==> e == KernelError::NotFound,
            final(self).next_handle() == old(self).next_handle(),
            old(self).wf() ==> final(self).wf(),
    {
        match self.index_of(h) {
            Some(i) => {
                let _ = self.agents.remove(i);
                proof {
                    assert(models(old(self).agents@.remove(i as int)) =~= models(
                        old(self).agents@,
                    ).remove(i as int));
                }
                Ok(())
            },
            None => Err(KernelError::NotFound),
        }
    }

    /// Overwrite the neighbour list of the agent at index `i` wholesale.
    pub fn set_neighbours_at(&mut self, i: usize, neighbours: Vec<AgentView>)
        requires
            i < old(self)@.len(),
        ensures
            final(self)@ == old(self)@.update(
                i as int,
                old(self)@[i as int].with_neighbours(infos(neighbours@)),
            ),
            final(self).next_handle() == old(self).next_handle(),
            old(self).wf() ==> final(self).wf(),
    {
        self.agents[i].neighbours = neighbours;
        proof {
            assert(self@ =~= old(self)@.update(
                i as int,
                old(self)@[i as int].with_neighbours(infos(neighbours@)),
            ));
        }
    }

    /// The neighbour list of the agent at index `i`, as last recomputed.
    pub fn neighbours_at(&self, i: usize) -> (r: &Vec<AgentView>)
        requires
            i < self@.len(),
        ensures
            infos(r@) == self@[i as int].neighbours,
    {
        &self.agents[i].neighbours
    }

    /// Whether the agent at index `i` carries the "controlled" designation.
    pub fn controlled_at(&self, i: usize) -> (r: bool)
        requires
            i < self@.len(),
        ensures
            r == self@[i as int].controlled,
    {
        self.agents[i].controlled
    }

    /// The countdown state of the agent at index `i`, if it is a production
    /// agent.
    pub fn countdown_at(&self, i: usize) -> (r: Option<Countdown>)
        requires
            i < self@.len(),
        ensures
            r == self@[i as int].countdown,
    {
        self.agents[i].countdown
    }

    /// Apply one clock pulse to the countdown of the agent at index `i`.
    /// Returns whether a production event fired. An agent without a
    /// countdown is left untouched.
    pub fn pulse_countdown_at(&mut self, i: usize) -> (fired: bool)
        requires
            i < old(self)@.len(),
            old(self)@[i as int].countdown matches Some(c) ==> c.wf() && c.count < u64::MAX,
        ensures
            match old(self)@[i as int].countdown {
                Some(c) => {
                    &&& final(self)@ == old(self)@.update(
                        i as int,
                        old(self)@[i as int].with_countdown(Some(pulse_spec(c))),
                    )
                    &&& fired == (c.ticks_remaining == 1)
                },
                None => final(self)@ == old(self)@ && !fired,
            },
            final(self).next_handle() == old(self).next_handle(),
            old(self).wf() ==> final(self).wf(),
    {
        match self.agents[i].countdown {
            Some(c) => {
                let mut cd = c;
                let fired = cd.pulse();
                self.agents[i].countdown = Some(cd);
                proof {
                    assert(self@ =~= old(self)@.update(
                        i as int,
                        old(self)@[i as int].with_countdown(Some(pulse_spec(c))),
                    ));
                }
                fired
            },
            None => {
                proof {
                    assert(self@ =~= old(self)@);
                }
                false
            },
        }
    }
}

} // verus!
