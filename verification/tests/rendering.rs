use agent_kernel::KernelError;
use agent_kernel::adjacency::recompute_all;
use agent_kernel::agent::AgentView;
use agent_kernel::store::AgentStore;
use agent_kernel::view::{
    i32_to_string, neighbour_line, production_count_text, remaining_ticks, render, u64_to_string,
};

#[test]
fn numbers_render_in_decimal() {
    assert_eq!(u64_to_string(0), "0");
    assert_eq!(u64_to_string(42), "42");
    assert_eq!(u64_to_string(u64::MAX), "18446744073709551615");
    assert_eq!(i32_to_string(0), "0");
    assert_eq!(i32_to_string(-5), "-5");
    assert_eq!(i32_to_string(1234), "1234");
    assert_eq!(i32_to_string(i32::MIN), "-2147483648");
    assert_eq!(i32_to_string(i32::MAX), "2147483647");
}

#[test]
fn neighbour_line_format_is_exact() {
    let b = AgentView { id: 7, name: "B".to_string(), x: -3, y: 4 };
    assert_eq!(neighbour_line(&b), "Neighbour B: coordinates X:-3, Y:4. Entity:7\n");
}

#[test]
fn render_zero_agents_is_empty_string() {
    let store = AgentStore::new();
    assert_eq!(render(&store), "");
}

#[test]
fn render_marks_zero_neighbours() {
    let mut store = AgentStore::new();
    store.create("loner".to_string(), 0, 0, false, None).unwrap();
    recompute_all(&mut store);
    let text = render(&store);
    assert!(text.contains("no neighbours"));
    assert_eq!(text, "Agent loner\n  no neighbours\n");
}

#[test]
fn render_lists_neighbours_per_agent() {
    let mut store = AgentStore::new();
    let a = store.create("A".to_string(), 0, 0, false, None).unwrap();
    let b = store.create("B".to_string(), 1, 1, false, None).unwrap();
    store.create("C".to_string(), 9, 9, false, None).unwrap();
    recompute_all(&mut store);
    let expected = format!(
        "Agent A\nNeighbour B: coordinates X:1, Y:1. Entity:{b}\n\
         Agent B\nNeighbour A: coordinates X:0, Y:0. Entity:{a}\n\
         Agent C\n  no neighbours\n"
    );
    assert_eq!(render(&store), expected);
}

#[test]
fn remaining_ticks_maps_production_agents_in_order() {
    let mut store = AgentStore::new();
    store.create("player".to_string(), 0, 0, true, None).unwrap();
    let a = store.create("A".to_string(), 1, 0, false, Some(4)).unwrap();
    let b = store.create("B".to_string(), 2, 0, false, Some(5)).unwrap();
    assert_eq!(remaining_ticks(&store), vec![(a, 4), (b, 5)]);
}

#[test]
fn remaining_ticks_empty_without_production_agents() {
    let mut store = AgentStore::new();
    store.create("player".to_string(), 0, 0, true, None).unwrap();
    assert_eq!(remaining_ticks(&store), Vec::<(u64, u32)>::new());
}

#[test]
fn production_count_renders_in_decimal() {
    let mut store = AgentStore::new();
    let g = store.create("gen".to_string(), 0, 0, false, Some(2)).unwrap();
    assert_eq!(production_count_text(&store, g).unwrap(), "0");
    let i = store.index_of(g).unwrap();
    store.pulse_countdown_at(i);
    store.pulse_countdown_at(i);
    assert_eq!(production_count_text(&store, g).unwrap(), "1");
}

#[test]
fn production_count_of_plain_agent_is_not_found() {
    let mut store = AgentStore::new();
    let h = store.create("plain".to_string(), 0, 0, false, None).unwrap();
    assert_eq!(production_count_text(&store, h).unwrap_err(), KernelError::NotFound);
    assert_eq!(production_count_text(&store, h + 1).unwrap_err(), KernelError::NotFound);
}
