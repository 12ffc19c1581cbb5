//! The View Synchronizer: a pure projection of store, adjacency and
//! countdown state into human-readable text.
//!
//! Nothing here mutates simulation state. An empty agent set renders as the
//! empty string, never an error; an agent with no neighbours renders with an
//! explicit "no neighbours" marker.

use vstd::prelude::*;
use vstd::string::StrSliceExecFns;
use vstd::string::StringExecFns;

use crate::KernelError;
use crate::agent::{AgentInfo, AgentModel, AgentView};
use crate::store::AgentStore;

verus! {

/// The decimal digit character for `d` (meaningful for `0 <= d <= 9`).
pub open spec fn digit_char(d: int) -> char {
    if d == 0 {
        '0'
    } else if d == 1 {
        '1'
    } else if d == 2 {
        '2'
    } else if d == 3 {
        '3'
    } else if d == 4 {
        '4'
    } else if d == 5 {
        '5'
    } else if d == 6 {
        '6'
    } else if d == 7 {
        '7'
    } else if d == 8 {
        '8'
    } else {
        '9'
    }
}

/// The decimal digits of a non-negative number, most significant first.
pub open spec fn dec_chars(n: int) -> Seq<char>
    decreases n,
{
    if n < 10 {
        seq![digit_char(n)]
    } else {
        dec_chars(n / 10).push(digit_char(n % 10))
    }
}

/// The decimal rendering of a signed number: a leading minus sign for
/// negative values, then the digits of the magnitude.
pub open spec fn int_chars(n: int) -> Seq<char> {
    if n < 0 {
        seq!['-'] + dec_chars(-n)
    } else {
        dec_chars(n)
    }
}

/// One digit as text.
fn digit_str(d: u64) -> (r: &'static str)
    requires
        d < 10,
    ensures
        r@ == seq![digit_char(d as int)],
{
    proof {
        reveal_strlit("0");
        reveal_strlit("1");
        reveal_strlit("2");
        reveal_strlit("3");
        reveal_strlit("4");
        reveal_strlit("5");
        reveal_strlit("6");
        reveal_strlit("7");
        reveal_strlit("8");
        reveal_strlit("9");
    }
    let r: &'static str = if d == 0 {
        "0"
    } else if d == 1 {
        "1"
    } else if d == 2 {
        "2"
    } else if d == 3 {
        "3"
    } else if d == 4 {
        "4"
    } else if d == 5 {
        "5"
    } else if d == 6 {
        "6"
    } else if d == 7 {
        "7"
    } else if d == 8 {
        "8"
    } else {
        "9"
    };
    proof {
        assert(r@ =~= seq![digit_char(d as int)]);
    }
    r
}

/// A non-negative number in decimal.
pub fn u64_to_string(n: u64) -> (r: String)
    ensures
        r@ == dec_chars(n as int),
    decreases n,
{
    if n < 10 {
        String::from_str(digit_str(n))
    } else {
        let mut s = u64_to_string(n / 10);
        s.append(digit_str(n % 10));
        proof {
            assert(s@ =~= dec_chars((n / 10) as int).push(digit_char((n % 10) as int)));
        }
        s
    }
}

/// A signed number in decimal, with a minus sign for negative values.
pub fn i32_to_string(n: i32) -> (r: String)
    ensures
        r@ == int_chars(n as int),
{
    if n >= 0 {
        u64_to_string(n as u64)
    } else {
        let mag: u64 = (-(n as i64)) as u64;
        proof {
            assert(mag as int == -(n as int));
        }
        let mut s = String::from_str("-");
        let digits = u64_to_string(mag);
        s.append(digits.as_str());
        proof {
            reveal_strlit("-");
            assert(s@ =~= int_chars(n as int));
        }
        s
    }
}

/// The rendering of one neighbour: name, coordinates, and the stable handle.
pub open spec fn neighbour_line_spec(b: AgentInfo) -> Seq<char> {
    "Neighbour "@ + b.name + ": coordinates X:"@ + int_chars(b.x as int) + ", Y:"@ + int_chars(
        b.y as int,
    ) + ". Entity:"@ + dec_chars(b.id as int) + "\n"@
}

/// Render one neighbour description line.
pub fn neighbour_line(b: &AgentView) -> (r: String)
    ensures
        r@ == neighbour_line_spec(b.info()),
{
    let mut s = String::from_str("Neighbour ");
    s.append(b.name.as_str());
    s.append(": coordinates X:");
    let xs = i32_to_string(b.x);
    s.append(xs.as_str());
    s.append(", Y:");
    let ys = i32_to_string(b.y);
    s.append(ys.as_str());
    s.append(". Entity:");
    let ids = u64_to_string(b.id);
    s.append(ids.as_str());
    s.append("\n");
    proof {
        assert(s@ =~= neighbour_line_spec(b.info()));
    }
    s
}

/// The neighbour description lines of a whole neighbour list, in list order.
pub open spec fn neighbour_lines_spec(ns: Seq<AgentInfo>) -> Seq<char>
    decreases ns.len(),
{
    if ns.len() == 0 {
        Seq::empty()
    } else {
        neighbour_lines_spec(ns.drop_last()) + neighbour_line_spec(ns.last())
    }
}

/// The rendering of one agent: a header line with its name, then either its
/// neighbour descriptions or the explicit "no neighbours" marker.
pub open spec fn agent_block_spec(a: AgentModel) -> Seq<char> {
    "Agent "@ + a.name + "\n"@ + (if a.neighbours.len() == 0 {
        "  no neighbours\n"@
    } else {
        neighbour_lines_spec(a.neighbours)
    })
}

/// The rendering of the whole agent set, in insertion order. Zero agents
/// render as the empty string.
pub open spec fn render_spec(s: Seq<AgentModel>) -> Seq<char>
    decreases s.len(),
{
    if s.len() == 0 {
        Seq::empty()
    } else {
        render_spec(s.drop_last()) + agent_block_spec(s.last())
    }
}

/// Render the block of the agent at index `i`.
pub fn agent_block(store: &AgentStore, i: usize) -> (r: String)
    requires
        i < store@.len(),
    ensures
        r@ == agent_block_spec(store@[i as int]),
{
    let v = store.view_at(i);
    let mut s = String::from_str("Agent ");
    s.append(v.name.as_str());
    s.append("\n");
    let ghost header = "Agent "@ + store@[i as int].name + "\n"@;
    let nbs = store.neighbours_at(i);
    let n = nbs.len();
    if n == 0 {
        s.append("  no neighbours\n");
        proof {
            assert(s@ =~= agent_block_spec(store@[i as int]));
        }
    } else {
        let mut j: usize = 0;
        while j < n
            invariant
                j <= n,
                n == nbs@.len(),
                crate::agent::infos(nbs@) == store@[i as int].neighbours,
                i < store@.len(),
                s@ == header + neighbour_lines_spec(
                    store@[i as int].neighbours.subrange(0, j as int),
                ),
                header == "Agent "@ + store@[i as int].name + "\n"@,
            decreases n - j,
        {
            let line = neighbour_line(&nbs[j]);
            s.append(line.as_str());
            proof {
                let nbrs = store@[i as int].neighbours;
                assert(nbrs.subrange(0, j + 1 as int).drop_last() =~= nbrs.subrange(0, j as int));
                assert(nbrs.subrange(0, j + 1 as int).last() == nbrs[j as int]);
                assert(nbrs[j as int] == nbs@[j as int].info());
                assert(s@ =~= header + neighbour_lines_spec(nbrs.subrange(0, j + 1 as int)));
            }
            j = j + 1;
        }
        proof {
            let nbrs = store@[i as int].neighbours;
            assert(nbrs.subrange(0, n as int) =~= nbrs);
            assert(s@ =~= agent_block_spec(store@[i as int]));
        }
    }
    s
}

/// Render the whole agent set: the per-agent summary text, one block per
/// agent, in insertion order. With zero agents the result is the empty
/// string.
pub fn render(store: &AgentStore) -> (r: String)
    ensures
        r@ == render_spec(store@),
{
    let n = store.len();
    let mut s = String::new();
    let mut i: usize = 0;
    while i < n
        invariant
            i <= n,
            n == store@.len(),
            s@ == render_spec(store@.subrange(0, i as int)),
        decreases n - i,
    {
        let block = agent_block(store, i);
        s.append(block.as_str());
        proof {
            assert(store@.subrange(0, i + 1 as int).drop_last() =~= store@.subrange(0, i as int));
            assert(store@.subrange(0, i + 1 as int).last() == store@[i as int]);
            assert(s@ =~= render_spec(store@.subrange(0, i + 1 as int)));
        }
        i = i + 1;
    }
    proof {
        assert(store@.subrange(0, n as int) =~= store@);
    }
    s
}

/// The (handle, ticks remaining) pairs of the production agents, in
/// insertion order: the debug inspection mapping.
pub open spec fn remaining_spec(s: Seq<AgentModel>) -> Seq<(u64, u32)>
    decreases s.len(),
{
    if s.len() == 0 {
        Seq::empty()
    } else {
        remaining_spec(s.drop_last()) + (match s.last().countdown {
            Some(c) => seq![(s.last().id, c.ticks_remaining)],
            None => Seq::<(u64, u32)>::empty(),
        })
    }
}

/// The current `ticks_remaining` of every production agent, keyed by handle,
/// in insertion order.
pub fn remaining_ticks(store: &AgentStore) -> (r: Vec<(u64, u32)>)
    ensures
        r@ == remaining_spec(store@),
{
    let n = store.len();
    let mut r: Vec<(u64, u32)> = Vec::new();
    let mut i: usize = 0;
    while i < n
        invariant
            i <= n,
            n == store@.len(),
            r@ == remaining_spec(store@.subrange(0, i as int)),
        decreases n - i,
    {
        let v = store.view_at(i);
        match store.countdown_at(i) {
            Some(c) => {
                r.push((v.id, c.ticks_remaining));
            },
            None => {},
        }
        proof {
            assert(store@.subrange(0, i + 1 as int).drop_last() =~= store@.subrange(0, i as int));
            assert(store@.subrange(0, i + 1 as int).last() == store@[i as int]);
            assert(r@ =~= remaining_spec(store@.subrange(0, i + 1 as int)));
        }
        i = i + 1;
    }
    proof {
        assert(store@.subrange(0, n as int) =~= store@);
    }
    r
}

/// The accumulated production count of the agent carrying handle `h`,
/// rendered in decimal. A dead handle, or an agent without the production
/// capability, is reported as not found, never a fault.
pub fn production_count_text(store: &AgentStore, h: u64) -> (r: Result<String, KernelError>)
    requires
        store.wf(),
    ensures
        r is Ok <==> exists|i: int|
            0 <= i < store@.len() && store@[i].id == h && store@[i].countdown is Some,
        r matches Ok(t) ==> exists|i: int|
            {
                &&& 0 <= i < store@.len()
                &&& store@[i].id == h
                &&& (#[trigger] store@[i].countdown) matches Some(c)
                &&& t@ == dec_chars(c.count as int)
            },
        r matches Err(e) ==> e == KernelError::NotFound,
{
    match store.index_of(h) {
        Some(i) => {
            match store.countdown_at(i) {
                Some(c) => Ok(u64_to_string(c.count)),
                None => Err(KernelError::NotFound),
            }
        },
        None => Err(KernelError::NotFound),
    }
}

/// Law: the View Synchronizer renders zero agents as the empty string.
pub proof fn lemma_render_zero_agents(s: Seq<AgentModel>)
    requires
        s.len() == 0,
    ensures
        render_spec(s) == Seq::<char>::empty(),
{
}

/// Whether `marker` occurs contiguously inside `text`.
pub open spec fn contains_text(text: Seq<char>, marker: Seq<char>) -> bool {
    exists|k: int|
        0 <= k && k + marker.len() <= text.len() && #[trigger] text.subrange(k, k + marker.len())
            == marker
}

/// A marker occurring in either side of a concatenation occurs in the whole.
proof fn lemma_contains_concat(a: Seq<char>, b: Seq<char>, marker: Seq<char>)
    requires
        contains_text(a, marker) || contains_text(b, marker),
    ensures
        contains_text(a + b, marker),
{
    if contains_text(a, marker) {
        let k = choose|k: int|
            0 <= k && k + marker.len() <= a.len() && #[trigger] a.subrange(k, k + marker.len())
                == marker;
        assert((a + b).subrange(k, k + marker.len()) =~= a.subrange(k, k + marker.len()));
    } else {
        let k = choose|k: int|
            0 <= k && k + marker.len() <= b.len() && #[trigger] b.subrange(k, k + marker.len())
                == marker;
        assert((a + b).subrange(a.len() + k, a.len() + k + marker.len()) =~= b.subrange(
            k,
            k + marker.len(),
        ));
    }
}

/// Law: the block of an agent with zero neighbours carries the explicit
/// "no neighbours" marker.
pub proof fn lemma_no_neighbours_marker(a: AgentModel)
    requires
        a.neighbours.len() == 0,
    ensures
        contains_text(agent_block_spec(a), "no neighbours"@),
{
    reveal_strlit("  no neighbours\n");
    reveal_strlit("no neighbours");
    let block = agent_block_spec(a);
    let k: int = ("Agent "@.len() + a.name.len() + "\n"@.len() + 2) as int;
    let m: int = "no neighbours"@.len() as int;
    assert(block.subrange(k, k + m) =~= "no neighbours"@);
}

/// Law: when any agent of the set has zero neighbours, the rendered text of
/// the whole set carries the "no neighbours" marker.
pub proof fn lemma_marker_in_render(s: Seq<AgentModel>, i: int)
    requires
        0 <= i < s.len(),
        s[i].neighbours.len() == 0,
    ensures
        contains_text(render_spec(s), "no neighbours"@),
    decreases s.len(),
{
    if i == s.len() - 1 {
        lemma_no_neighbours_marker(s.last());
        lemma_contains_concat(render_spec(s.drop_last()), agent_block_spec(s.last()), "no neighbours"@);
    } else {
        lemma_marker_in_render(s.drop_last(), i);
        lemma_contains_concat(render_spec(s.drop_last()), agent_block_spec(s.last()), "no neighbours"@);
    }
}

} // verus!
