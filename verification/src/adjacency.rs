//! The Adjacency Engine: once per tick, recomputes for every agent the list
//! of other agents within the fixed grid-distance threshold.
//!
//! The engine works over an immutable snapshot of all (handle, name,
//! position) triples taken at the start of the recomputation, so the result
//! is deterministic whatever mutation follows. Agent B is a neighbour of
//! agent A when their display names differ and their Chebyshev distance is
//! at most one on both axes. Neighbour lists keep snapshot (insertion)
//! order, are recomputed wholesale, and never contain the owning agent.

use vstd::prelude::*;

use crate::agent::{AgentInfo, AgentModel, AgentView, infos, model_infos};
use crate::store::AgentStore;

verus! {

/// Whether two agents lie within Chebyshev distance one: at most one grid
/// step apart on both axes.
pub open spec fn chebyshev_within_one(a: AgentInfo, b: AgentInfo) -> bool {
    &&& -1 <= a.x - b.x <= 1
    &&& -1 <= a.y - b.y <= 1
}

/// The adjacency predicate: name-distinct and within Chebyshev distance one.
///
/// Distinctness is judged by display name, as the kernel defines it: two
/// agents sharing a name never count as each other's neighbours, even at
/// distance zero.
pub open spec fn adjacent(a: AgentInfo, b: AgentInfo) -> bool {
    &&& a.name != b.name
    &&& chebyshev_within_one(a, b)
}

/// The neighbour list of the agent at index `i` of snapshot `s`: every agent
/// of the snapshot adjacent to it, in snapshot order.
pub open spec fn neighbour_list(s: Seq<AgentInfo>, i: int) -> Seq<AgentInfo> {
    s.filter(|b: AgentInfo| adjacent(s[i], b))
}

/// One whole adjacency pass over the agents: every neighbour list replaced
/// wholesale by the list computed from the same snapshot.
pub open spec fn adjacency_pass(s: Seq<AgentModel>) -> Seq<AgentModel> {
    Seq::new(s.len(), |i: int| s[i].with_neighbours(neighbour_list(model_infos(s), i)))
}

/// Whether two snapshot entries are adjacent.
pub fn is_adjacent(a: &AgentView, b: &AgentView) -> (r: bool)
    ensures
        r == adjacent(a.info(), b.info()),
{
    if a.name == b.name {
        return false;
    }
    let dx: i64 = a.x as i64 - b.x as i64;
    let dy: i64 = a.y as i64 - b.y as i64;
    -1 <= dx && dx <= 1 && -1 <= dy && dy <= 1
}

/// A sequence of exactly one element is kept by a filter exactly when the
/// element satisfies the predicate.
proof fn lemma_filter_singleton<A>(x: A, pred: spec_fn(A) -> bool)
    ensures
        seq![x].filter(pred) == if pred(x) {
            seq![x]
        } else {
            Seq::<A>::empty()
        },
{
    reveal_with_fuel(Seq::filter, 2);
    assert(seq![x].drop_last() =~= Seq::<A>::empty());
    assert(seq![x].last() == x);
    if pred(x) {
        assert(seq![x].filter(pred) =~= seq![x]);
    } else {
        assert(seq![x].filter(pred) =~= Seq::<A>::empty());
    }
}

/// Filtering a prefix one element longer keeps the old prefix's result and
/// appends the new element exactly when it satisfies the predicate.
proof fn lemma_filter_prefix_step<A>(s: Seq<A>, pred: spec_fn(A) -> bool, j: int)
    requires
        0 <= j < s.len(),
    ensures
        s.subrange(0, j + 1).filter(pred) == if pred(s[j]) {
            s.subrange(0, j).filter(pred).push(s[j])
        } else {
            s.subrange(0, j).filter(pred)
        },
{
    let prefix = s.subrange(0, j);
    let one = seq![s[j]];
    assert(s.subrange(0, j + 1) =~= prefix + one);
    Seq::filter_distributes_over_add(prefix, one, pred);
    lemma_filter_singleton(s[j], pred);
    if pred(s[j]) {
        assert(prefix.filter(pred) + one =~= prefix.filter(pred).push(s[j]));
    } else {
        assert(prefix.filter(pred) + Seq::<A>::empty() =~= prefix.filter(pred));
    }
}

/// The neighbour list of the agent at index `i` of the snapshot `snapshot`.
pub fn neighbours_of(snapshot: &Vec<AgentView>, i: usize) -> (r: Vec<AgentView>)
    requires
        i < snapshot@.len(),
    ensures
        infos(r@) == neighbour_list(infos(snapshot@), i as int),
{
    let ghost s = infos(snapshot@);
    let ghost pred = |b: AgentInfo| adjacent(s[i as int], b);
    let n = snapshot.len();
    let mut r: Vec<AgentView> = Vec::new();
    let mut j: usize = 0;
    while j < n
        invariant
            i < snapshot@.len(),
            j <= n,
            n == snapshot@.len(),
            s == infos(snapshot@),
            pred == (|b: AgentInfo| adjacent(s[i as int], b)),
            infos(r@) == s.subrange(0, j as int).filter(pred),
        decreases n - j,
    {
        proof {
            lemma_filter_prefix_step(s, pred, j as int);
        }
        if is_adjacent(&snapshot[i], &snapshot[j]) {
            let v = snapshot[j].duplicate();
            r.push(v);
            proof {
                assert(infos(r@) =~= s.subrange(0, j + 1 as int).filter(pred));
            }
        } else {
            proof {
                assert(infos(r@) =~= s.subrange(0, j + 1 as int).filter(pred));
            }
        }
        j = j + 1;
    }
    proof {
        assert(s.subrange(0, n as int) =~= s);
    }
    r
}

/// Recompute the neighbour list of every agent of the snapshot, in snapshot
/// order: entry `i` of the result is the neighbour list of agent `i`.
pub fn recompute(snapshot: &Vec<AgentView>) -> (r: Vec<Vec<AgentView>>)
    ensures
        r@.len() == snapshot@.len(),
        forall|i: int|
            0 <= i < r@.len() ==> infos(#[trigger] r@[i]@) == neighbour_list(
                infos(snapshot@),
                i,
            ),
{
    let n = snapshot.len();
    let mut r: Vec<Vec<AgentView>> = Vec::new();
    let mut i: usize = 0;
    while i < n
        invariant
            i <= n,
            n == snapshot@.len(),
            r@.len() == i,
            forall|k: int|
                0 <= k < i ==> infos(#[trigger] r@[k]@) == neighbour_list(infos(snapshot@), k),
        decreases n - i,
    {
        let nb = neighbours_of(snapshot, i);
        r.push(nb);
        i = i + 1;
    }
    r
}

/// One adjacency pass over the store: take the snapshot, then overwrite
/// every agent's neighbour list with the list computed from it. Nothing but
/// the neighbour lists changes.
pub fn recompute_all(store: &mut AgentStore)
    ensures
        final(store)@ == adjacency_pass(old(store)@),
        final(store).next_handle() == old(store).next_handle(),
        old(store).wf() ==> final(store).wf(),
{
    let snap = store.snapshot();
    let n = store.len();
    proof {
        assert(infos(snap@).len() == snap@.len());
        assert(model_infos(store@).len() == store@.len());
    }
    let mut i: usize = 0;
    while i < n
        invariant
            i <= n,
            n == old(store)@.len(),
            store@.len() == old(store)@.len(),
            snap@.len() == n,
            infos(snap@) == model_infos(old(store)@),
            forall|k: int|
                0 <= k < i ==> store@[k] == old(store)@[k].with_neighbours(
                    neighbour_list(model_infos(old(store)@), k),
                ),
            forall|k: int| i <= k < n ==> store@[k] == old(store)@[k],
            store.next_handle() == old(store).next_handle(),
            old(store).wf() ==> store.wf(),
        decreases n - i,
    {
        let nb = neighbours_of(&snap, i);
        store.set_neighbours_at(i, nb);
        i = i + 1;
    }
    proof {
        assert(store@ =~= adjacency_pass(old(store)@));
    }
}

/// Law: the Adjacency Engine's output contains no agent as its own
/// neighbour, for every agent set.
pub proof fn lemma_no_self_neighbour(s: Seq<AgentInfo>, i: int)
    requires
        0 <= i < s.len(),
    ensures
        !neighbour_list(s, i).contains(s[i]),
{
    broadcast use vstd::seq_lib::group_filter_ensures;

    let pred = |b: AgentInfo| adjacent(s[i], b);
    let list = neighbour_list(s, i);
    if list.contains(s[i]) {
        let k = choose|k: int| 0 <= k < list.len() && list[k] == s[i];
        assert(pred(list[k]));
    }
}

/// Law: adjacency is symmetric at a fixed snapshot. For every pair of agents
/// with distinct names within Chebyshev distance one, each appears in the
/// other's neighbour list.
pub proof fn lemma_adjacency_symmetric(s: Seq<AgentInfo>, i: int, j: int)
    requires
        0 <= i < s.len(),
        0 <= j < s.len(),
        s[i].name != s[j].name,
        chebyshev_within_one(s[i], s[j]),
    ensures
        neighbour_list(s, i).contains(s[j]),
        neighbour_list(s, j).contains(s[i]),
{
    broadcast use vstd::seq_lib::group_filter_ensures;

    let pred_i = |b: AgentInfo| adjacent(s[i], b);
    let pred_j = |b: AgentInfo| adjacent(s[j], b);
    assert(pred_i(s[j]));
    assert(pred_j(s[i]));
}

/// Law, at the store level: after an adjacency pass, no agent's stored
/// neighbour list contains the agent itself.
pub proof fn lemma_pass_no_self_neighbour(s: Seq<AgentModel>, i: int)
    requires
        0 <= i < s.len(),
    ensures
        !adjacency_pass(s)[i].neighbours.contains(s[i].info()),
{
    assert(model_infos(s)[i] == s[i].info());
    lemma_no_self_neighbour(model_infos(s), i);
}

/// Law, at the store level: after an adjacency pass, every name-distinct
/// pair within Chebyshev distance one appears in each other's stored
/// neighbour list.
pub proof fn lemma_pass_symmetric(s: Seq<AgentModel>, i: int, j: int)
    requires
        0 <= i < s.len(),
        0 <= j < s.len(),
        s[i].name != s[j].name,
        chebyshev_within_one(s[i].info(), s[j].info()),
    ensures
        adjacency_pass(s)[i].neighbours.contains(s[j].info()),
        adjacency_pass(s)[j].neighbours.contains(s[i].info()),
{
    assert(model_infos(s)[i] == s[i].info());
    assert(model_infos(s)[j] == s[j].info());
    lemma_adjacency_symmetric(model_infos(s), i, j);
}

/// Law, at the store level: after an adjacency pass, a pair further apart
/// than Chebyshev distance one appears in neither stored neighbour list.
pub proof fn lemma_pass_far_pair_excluded(s: Seq<AgentModel>, i: int, j: int)
    requires
        0 <= i < s.len(),
        0 <= j < s.len(),
        !chebyshev_within_one(s[i].info(), s[j].info()),
    ensures
        !adjacency_pass(s)[i].neighbours.contains(s[j].info()),
        !adjacency_pass(s)[j].neighbours.contains(s[i].info()),
{
    assert(model_infos(s)[i] == s[i].info());
    assert(model_infos(s)[j] == s[j].info());
    lemma_far_pair_excluded(model_infos(s), i, j);
}

/// Law: a pair further apart than Chebyshev distance one on some axis is
/// excluded from both neighbour lists.
pub proof fn lemma_far_pair_excluded(s: Seq<AgentInfo>, i: int, j: int)
    requires
        0 <= i < s.len(),
        0 <= j < s.len(),
        !chebyshev_within_one(s[i], s[j]),
    ensures
        !neighbour_list(s, i).contains(s[j]),
        !neighbour_list(s, j).contains(s[i]),
{
    broadcast use vstd::seq_lib::group_filter_ensures;

    let pred_i = |b: AgentInfo| adjacent(s[i], b);
    let pred_j = |b: AgentInfo| adjacent(s[j], b);
    let list_i = neighbour_list(s, i);
    let list_j = neighbour_list(s, j);
    if list_i.contains(s[j]) {
        let k = choose|k: int| 0 <= k < list_i.len() && list_i[k] == s[j];
        assert(pred_i(list_i[k]));
    }
    if list_j.contains(s[i]) {
        let k = choose|k: int| 0 <= k < list_j.len() && list_j[k] == s[i];
        assert(pred_j(list_j[k]));
    }
}

} // verus!
