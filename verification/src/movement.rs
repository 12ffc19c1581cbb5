//! The Movement Controller: two independent per-tick operations on disjoint
//! agent subsets.
//!
//! A directional move applies a unit delta per pressed edge-trigger to the
//! one controlled agent; several triggers in the same tick each apply
//! independently. A randomized reposition overwrites both coordinates of
//! every agent except the controlled one with values drawn from the fixed
//! half-open range `[REPOSITION_MIN, REPOSITION_MAX)`. Neither operation
//! faults when it has nothing to act on: it is a no-op.

use vstd::prelude::*;

use crate::agent::AgentModel;
use crate::store::AgentStore;

verus! {

/// Lower bound (inclusive) of the randomized reposition range.
pub const REPOSITION_MIN: i32 = -5;

/// Upper bound (exclusive) of the randomized reposition range.
pub const REPOSITION_MAX: i32 = 5;

/// The directional edge-trigger signals gathered for one tick. Each pressed
/// direction applies one unit step, independently of the others.
#[derive(Clone, Copy, Debug, PartialEq, Eq, Structural)]
pub struct DirectionalInput {
    pub up: bool,
    pub down: bool,
    pub left: bool,
    pub right: bool,
}

/// The net horizontal delta of the pressed triggers: right minus left.
pub open spec fn dx_of(input: DirectionalInput) -> int {
    (if input.right {
        1int
    } else {
        0int
    }) - (if input.left {
        1int
    } else {
        0int
    })
}

/// The net vertical delta of the pressed triggers: up minus down.
pub open spec fn dy_of(input: DirectionalInput) -> int {
    (if input.up {
        1int
    } else {
        0int
    }) - (if input.down {
        1int
    } else {
        0int
    })
}

/// What a directional move does to the agents: the controlled agent steps by
/// the pressed deltas, without bounds clamping; everyone else is untouched.
/// With no controlled agent this is the identity.
pub open spec fn directional_pass(s: Seq<AgentModel>, input: DirectionalInput) -> Seq<
    AgentModel,
> {
    Seq::new(
        s.len(),
        |i: int|
            if s[i].controlled {
                s[i].at_position((s[i].x + dx_of(input)) as i32, (s[i].y + dy_of(input)) as i32)
            } else {
                s[i]
            },
    )
}

/// What a randomized reposition does: every agent but the controlled one has
/// its position overwritten wholesale by its drawn pair; the controlled
/// agent is untouched. On an empty agent set this is the identity.
pub open spec fn reposition_pass(s: Seq<AgentModel>, draws: Seq<(i32, i32)>) -> Seq<AgentModel> {
    Seq::new(
        s.len(),
        |i: int|
            if s[i].controlled {
                s[i]
            } else {
                s[i].at_position(draws[i].0, draws[i].1)
            },
    )
}

/// Apply the pressed directional edge-triggers to the controlled agent. With
/// no controlled agent this is a no-op, not an error.
pub fn apply_directional(store: &mut AgentStore, input: DirectionalInput)
    requires
        old(store).wf(),
        // Machine limit: a unit step must not leave the i32 grid.
        forall|i: int|
            0 <= i < old(store)@.len() && (#[trigger] old(store)@[i]).controlled ==> i32::MIN
                < old(store)@[i].x < i32::MAX && i32::MIN < old(store)@[i].y < i32::MAX,
    ensures
        final(store)@ == directional_pass(old(store)@, input),
        final(store).wf(),
        final(store).next_handle() == old(store).next_handle(),
{
    match store.controlled_index() {
        Some(i) => {
            let v = store.view_at(i);
            let mut nx: i32 = v.x;
            let mut ny: i32 = v.y;
            if input.right {
                nx = nx + 1;
            }
            if input.left {
                nx = nx - 1;
            }
            if input.up {
                ny = ny + 1;
            }
            if input.down {
                ny = ny - 1;
            }
            store.set_position_at(i, nx, ny);
            proof {
                assert(store@ =~= directional_pass(old(store)@, input));
            }
        },
        None => {
            proof {
                assert(store@ =~= directional_pass(old(store)@, input));
            }
        },
    }
}

/// Overwrite the position of every agent except the controlled one with its
/// drawn coordinate pair. The caller hands one pair per agent, each drawn
/// from `[REPOSITION_MIN, REPOSITION_MAX)`; the pair at a controlled agent's
/// index is ignored. On an empty agent set this is a no-op.
pub fn reposition(store: &mut AgentStore, draws: &Vec<(i32, i32)>)
    requires
        old(store).wf(),
        draws@.len() == old(store)@.len(),
        forall|k: int|
            0 <= k < draws@.len() ==> REPOSITION_MIN <= (#[trigger] draws@[k]).0 < REPOSITION_MAX
                && REPOSITION_MIN <= draws@[k].1 < REPOSITION_MAX,
    ensures
        final(store)@ == reposition_pass(old(store)@, draws@),
        // Every repositioned agent lands inside the half-open range; the
        // controlled agent's position is unchanged by this trigger.
        forall|i: int|
            0 <= i < final(store)@.len() && !(#[trigger] old(store)@[i]).controlled ==>
                REPOSITION_MIN <= final(store)@[i].x < REPOSITION_MAX && REPOSITION_MIN <= final(store)@[i].y < REPOSITION_MAX,
        forall|i: int|
            0 <= i < final(store)@.len() && (#[trigger] old(store)@[i]).controlled ==> final(store)@[i] == old(store)@[i],
        final(store).wf(),
        final(store).next_handle() == old(store).next_handle(),
{
    let n = store.len();
    let mut i: usize = 0;
    while i < n
        invariant
            i <= n,
            n == old(store)@.len(),
            store@.len() == old(store)@.len(),
            draws@.len() == old(store)@.len(),
            forall|k: int|
                0 <= k < i ==> store@[k] == (if (#[trigger] old(store)@[k]).controlled {
                    old(store)@[k]
                } else {
                    old(store)@[k].at_position(draws@[k].0, draws@[k].1)
                }),
            forall|k: int| i <= k < n ==> store@[k] == old(store)@[k],
            store.next_handle() == old(store).next_handle(),
            store.wf(),
        decreases n - i,
    {
        if !store.controlled_at(i) {
            let d = draws[i];
            store.set_position_at(i, d.0, d.1);
        }
        i = i + 1;
    }
    proof {
        assert(store@ =~= reposition_pass(old(store)@, draws@));
    }
}

} // verus!
