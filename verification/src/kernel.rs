//! The simulation kernel: the fixed per-tick schedule over the agent store.
//!
//! Each tick runs, in order: the Movement Controller (directional move, then
//! randomized reposition when triggered), the Adjacency Engine (wholesale
//! neighbour recomputation from a fresh snapshot), and the Countdown Engine
//! (one pulse for every production agent whenever the interval clock fires).
//! The View Synchronizer is a pure projection and is called by the
//! presentation layer whenever it needs text.

use vstd::prelude::*;

use crate::KernelError;
use crate::adjacency::{adjacency_pass, recompute_all};
use crate::agent::AgentModel;
use crate::countdown::{Clock, pulse_spec};
use crate::movement::{
    DirectionalInput, apply_directional, directional_pass, reposition, reposition_pass,
};
use crate::store::AgentStore;

verus! {

/// What one countdown pass does to the agents: when the clock pulsed, every
/// production agent's countdown advances by one pulse; everyone else, and
/// every tick without a pulse, is untouched.
pub open spec fn countdown_pass(s: Seq<AgentModel>, pulse: bool) -> Seq<AgentModel> {
    if !pulse {
        s
    } else {
        Seq::new(
            s.len(),
            |i: int|
                match s[i].countdown {
                    Some(c) => s[i].with_countdown(Some(pulse_spec(c))),
                    None => s[i],
                },
        )
    }
}

/// Advance every production agent's countdown by one pulse when the clock
/// fired this tick; otherwise leave the store untouched. Position and
/// neighbour state is never read: countdowns are independent of position.
pub fn advance_countdowns(store: &mut AgentStore, pulse: bool)
    requires
        old(store).wf(),
        // Machine limit: an accumulated production count must stay a u64.
        forall|i: int|
            0 <= i < old(store)@.len() ==> ((#[trigger] old(store)@[i]).countdown matches Some(c)
                ==> c.count < u64::MAX),
    ensures
        final(store)@ == countdown_pass(old(store)@, pulse),
        final(store).wf(),
        final(store).next_handle() == old(store).next_handle(),
{
    if !pulse {
        proof {
            assert(store@ =~= countdown_pass(old(store)@, pulse));
        }
        return ;
    }
    let n = store.len();
    let mut i: usize = 0;
    while i < n
        invariant
            i <= n,
            n == old(store)@.len(),
            store@.len() == old(store)@.len(),
            forall|k: int|
                0 <= k < i ==> store@[k] == (match (#[trigger] old(store)@[k]).countdown {
                    Some(c) => old(store)@[k].with_countdown(Some(pulse_spec(c))),
                    None => old(store)@[k],
                }),
            forall|k: int| i <= k < n ==> store@[k] == old(store)@[k],
            forall|k: int|
                0 <= k < n ==> ((#[trigger] old(store)@[k]).countdown matches Some(c) ==> c.count
                    < u64::MAX),
            store.next_handle() == old(store).next_handle(),
            store.wf(),
        decreases n - i,
    {
        let _ = store.pulse_countdown_at(i);
        i = i + 1;
    }
    proof {
        assert(store@ =~= countdown_pass(old(store)@, pulse));
    }
}

/// The whole movement stage of one tick: the directional move, then the
/// randomized reposition when its trigger fired.
pub open spec fn movement_stage(
    s: Seq<AgentModel>,
    input: DirectionalInput,
    reposition_trigger: bool,
    draws: Seq<(i32, i32)>,
) -> Seq<AgentModel> {
    let moved = directional_pass(s, input);
    if reposition_trigger {
        reposition_pass(moved, draws)
    } else {
        moved
    }
}

/// What one whole tick does to the agents: movement, then wholesale
/// adjacency recomputation, then the countdown pass.
pub open spec fn tick_spec(
    s: Seq<AgentModel>,
    input: DirectionalInput,
    reposition_trigger: bool,
    draws: Seq<(i32, i32)>,
    pulse: bool,
) -> Seq<AgentModel> {
    countdown_pass(adjacency_pass(movement_stage(s, input, reposition_trigger, draws)), pulse)
}

/// The simulation kernel: the agent store and the interval clock that gates
/// countdown pulses.
pub struct Kernel {
    pub store: AgentStore,
    pub clock: Clock,
}

impl Kernel {
    /// Kernel invariant: the store invariants hold.
    pub open spec fn wf(&self) -> bool {
        self.store.wf()
    }

    /// A kernel with an empty store and a pulse clock of the given interval
    /// (in time units). A zero interval is rejected here, never mid-tick.
    pub fn new(interval: u64) -> (r: Result<Kernel, KernelError>)
        ensures
            r is Ok <==> interval >= 1,
            r matches Ok(k) ==> {
                &&& k.wf()
                &&& k.store@ == Seq::<AgentModel>::empty()
                &&& k.store.next_handle() == 0
                &&& k.clock == (Clock { interval, accumulated: 0 })
            },
            r matches Err(e) ==> e == KernelError::InvalidConfig,
    {
        match Clock::new(interval) {
            Ok(clock) => Ok(Kernel { store: AgentStore::new(), clock }),
            Err(e) => Err(e),
        }
    }

    /// Advance the simulation by one tick: apply the directional
    /// edge-triggers and, when triggered, the randomized reposition; then
    /// recompute every neighbour list from a fresh snapshot; then advance the
    /// clock by `delta` elapsed time units and, when it fires, pulse every
    /// countdown. Returns whether the clock pulsed.
    pub fn step(
        &mut self,
        input: DirectionalInput,
        reposition_trigger: bool,
        draws: &Vec<(i32, i32)>,
        delta: u64,
    ) -> (pulse: bool)
        requires
            old(self).wf(),
            // Machine limit: a unit step must not leave the i32 grid.
            forall|i: int|
                0 <= i < old(self).store@.len() && (#[trigger] old(self).store@[i]).controlled
                    ==> i32::MIN < old(self).store@[i].x < i32::MAX && i32::MIN < old(
                    self,
                ).store@[i].y < i32::MAX,
            // One drawn pair per agent when the reposition trigger fired.
            reposition_trigger ==> draws@.len() == old(self).store@.len(),
            reposition_trigger ==> forall|k: int|
                0 <= k < draws@.len() ==> crate::movement::REPOSITION_MIN <= (#[trigger] draws@[k]).0
                    < crate::movement::REPOSITION_MAX && crate::movement::REPOSITION_MIN
                    <= draws@[k].1 < crate::movement::REPOSITION_MAX,
            // Machine limits: production counts and accumulated time stay in range.
            forall|i: int|
                0 <= i < old(self).store@.len() ==> ((#[trigger] old(
                    self,
                ).store@[i]).countdown matches Some(c) ==> c.count < u64::MAX),
            old(self).clock.accumulated + delta <= u64::MAX,
        ensures
            final(self).wf(),
            pulse == (old(self).clock.accumulated + delta >= old(self).clock.interval),
            final(self).store@ == tick_spec(
                old(self).store@,
                input,
                reposition_trigger,
                draws@,
                pulse,
            ),
            final(self).clock.interval == old(self).clock.interval,
            pulse ==> final(self).clock.accumulated == old(self).clock.accumulated + delta - old(
                self,
            ).clock.interval,
            !pulse ==> final(self).clock.accumulated == old(self).clock.accumulated + delta,
            final(self).store.next_handle() == old(self).store.next_handle(),
    {
        let ghost s0 = self.store@;
        apply_directional(&mut self.store, input);
        let ghost s1 = self.store@;
        proof {
            assert(s1 == directional_pass(s0, input));
            assert(s1.len() == s0.len());
            assert(forall|i: int|
                0 <= i < s1.len() ==> (#[trigger] s1[i]).countdown == s0[i].countdown);
        }
        if reposition_trigger {
            reposition(&mut self.store, draws);
        }
        let ghost s2 = self.store@;
        proof {
            assert(s2 == movement_stage(s0, input, reposition_trigger, draws@));
            assert(forall|i: int|
                0 <= i < s2.len() ==> (#[trigger] s2[i]).countdown == s1[i].countdown);
        }
        recompute_all(&mut self.store);
        let ghost s3 = self.store@;
        proof {
            assert(s3 == adjacency_pass(s2));
            assert(forall|i: int|
                0 <= i < s3.len() ==> (#[trigger] s3[i]).countdown == s2[i].countdown);
        }
        let pulse = self.clock.tick(delta);
        advance_countdowns(&mut self.store, pulse);
        proof {
            assert(self.store@ == tick_spec(s0, input, reposition_trigger, draws@, pulse));
        }
        pulse
    }
}

} // verus!
