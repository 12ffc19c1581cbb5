use agent_kernel::KernelError;
use agent_kernel::adjacency::{is_adjacent, recompute, recompute_all};
use agent_kernel::agent::AgentView;
use agent_kernel::countdown::{Clock, Countdown};
use agent_kernel::kernel::{Kernel, advance_countdowns};
use agent_kernel::movement::{DirectionalInput, apply_directional, reposition};
use agent_kernel::store::AgentStore;

fn no_input() -> DirectionalInput {
    DirectionalInput { up: false, down: false, left: false, right: false }
}

fn seeded_store() -> (AgentStore, u64, u64, u64) {
    let mut store = AgentStore::new();
    let a = store.create("A".to_string(), 0, 0, false, None).unwrap();
    let b = store.create("B".to_string(), 1, 1, false, None).unwrap();
    let c = store.create("C".to_string(), 2, 2, false, None).unwrap();
    (store, a, b, c)
}

fn ids_of(neighbours: &Vec<AgentView>) -> Vec<u64> {
    neighbours.iter().map(|v| v.id).collect()
}

#[test]
fn store_create_and_get() {
    let mut store = AgentStore::new();
    assert_eq!(store.len(), 0);
    let h = store.create("alpha".to_string(), 3, -4, false, None).unwrap();
    assert_eq!(store.len(), 1);
    let v = store.get(h).unwrap();
    assert_eq!(v.id, h);
    assert_eq!(v.name, "alpha");
    assert_eq!(v.x, 3);
    assert_eq!(v.y, -4);
}

#[test]
fn store_get_unknown_handle_is_not_found() {
    let store = AgentStore::new();
    assert_eq!(store.get(0).unwrap_err(), KernelError::NotFound);
}

#[test]
fn store_set_position_unknown_handle_is_not_found() {
    let mut store = AgentStore::new();
    assert_eq!(store.set_position(9, 0, 0).unwrap_err(), KernelError::NotFound);
}

#[test]
fn store_set_position_overwrites() {
    let mut store = AgentStore::new();
    let h = store.create("alpha".to_string(), 0, 0, false, None).unwrap();
    store.set_position(h, 7, -7).unwrap();
    let v = store.get(h).unwrap();
    assert_eq!((v.x, v.y), (7, -7));
}

#[test]
fn store_remove_keeps_order_and_never_reuses_handles() {
    let (mut store, a, b, c) = seeded_store();
    store.remove(b).unwrap();
    assert_eq!(store.len(), 2);
    assert_eq!(store.get(b).unwrap_err(), KernelError::NotFound);
    assert_eq!(store.view_at(0).id, a);
    assert_eq!(store.view_at(1).id, c);
    let d = store.create("D".to_string(), 0, 0, false, None).unwrap();
    assert_ne!(d, a);
    assert_ne!(d, b);
    assert_ne!(d, c);
}

#[test]
fn store_second_controlled_agent_is_rejected() {
    let mut store = AgentStore::new();
    store.create("one".to_string(), 0, 0, true, None).unwrap();
    let r = store.create("two".to_string(), 1, 1, true, None);
    assert_eq!(r.unwrap_err(), KernelError::InvalidConfig);
    assert_eq!(store.len(), 1);
}

#[test]
fn store_zero_total_ticks_is_rejected() {
    let mut store = AgentStore::new();
    let r = store.create("gen".to_string(), 0, 0, false, Some(0));
    assert_eq!(r.unwrap_err(), KernelError::InvalidConfig);
}

#[test]
fn directional_move_steps() {
    let mut store = AgentStore::new();
    let h = store.create("player".to_string(), 2, 2, true, None).unwrap();
    let up = DirectionalInput { up: true, ..no_input() };
    apply_directional(&mut store, up);
    let v = store.get(h).unwrap();
    assert_eq!((v.x, v.y), (2, 3));
    let left = DirectionalInput { left: true, ..no_input() };
    apply_directional(&mut store, left);
    let v = store.get(h).unwrap();
    assert_eq!((v.x, v.y), (1, 3));
}

#[test]
fn directional_move_without_controlled_agent_is_noop() {
    let (mut store, a, b, c) = seeded_store();
    let up = DirectionalInput { up: true, ..no_input() };
    apply_directional(&mut store, up);
    for (h, x, y) in [(a, 0, 0), (b, 1, 1), (c, 2, 2)] {
        let v = store.get(h).unwrap();
        assert_eq!((v.x, v.y), (x, y));
    }
}

#[test]
fn directional_move_applies_each_trigger_independently() {
    let mut store = AgentStore::new();
    let h = store.create("player".to_string(), 0, 0, true, None).unwrap();
    let all = DirectionalInput { up: true, down: true, left: true, right: true };
    apply_directional(&mut store, all);
    let v = store.get(h).unwrap();
    assert_eq!((v.x, v.y), (0, 0));
    let up_right = DirectionalInput { up: true, right: true, ..no_input() };
    apply_directional(&mut store, up_right);
    let v = store.get(h).unwrap();
    assert_eq!((v.x, v.y), (1, 1));
}

#[test]
fn reposition_in_range_controlled_unchanged() {
    let mut store = AgentStore::new();
    let p = store.create("player".to_string(), 100, 100, true, None).unwrap();
    let a = store.create("A".to_string(), 50, 50, false, None).unwrap();
    let b = store.create("B".to_string(), -50, -50, false, None).unwrap();
    let draws = vec![(0, 0), (-5, 4), (3, -1)];
    reposition(&mut store, &draws);
    let vp = store.get(p).unwrap();
    assert_eq!((vp.x, vp.y), (100, 100));
    let va = store.get(a).unwrap();
    assert_eq!((va.x, va.y), (-5, 4));
    let vb = store.get(b).unwrap();
    assert_eq!((vb.x, vb.y), (3, -1));
    for v in [va, vb] {
        assert!(-5 <= v.x && v.x < 5);
        assert!(-5 <= v.y && v.y < 5);
    }
}

#[test]
fn reposition_on_empty_store_is_noop() {
    let mut store = AgentStore::new();
    let draws: Vec<(i32, i32)> = Vec::new();
    reposition(&mut store, &draws);
    assert_eq!(store.len(), 0);
}

#[test]
fn adjacency_topology() {
    let (mut store, a, b, c) = seeded_store();
    recompute_all(&mut store);
    assert_eq!(ids_of(store.neighbours_at(0)), vec![b]);
    assert_eq!(ids_of(store.neighbours_at(1)), vec![a, c]);
    assert_eq!(ids_of(store.neighbours_at(2)), vec![b]);
}

#[test]
fn adjacency_excludes_self_and_far_pairs() {
    let (mut store, a, _, c) = seeded_store();
    recompute_all(&mut store);
    // No agent is its own neighbour.
    for i in 0..store.len() {
        let own = store.view_at(i).id;
        assert!(!ids_of(store.neighbours_at(i)).contains(&own));
    }
    // A and C are two steps apart on both axes: excluded both ways.
    assert!(!ids_of(store.neighbours_at(0)).contains(&c));
    assert!(!ids_of(store.neighbours_at(2)).contains(&a));
}

#[test]
fn adjacency_same_position_distinct_names() {
    let mut store = AgentStore::new();
    let a = store.create("A".to_string(), 4, 4, false, None).unwrap();
    let b = store.create("B".to_string(), 4, 4, false, None).unwrap();
    recompute_all(&mut store);
    assert_eq!(ids_of(store.neighbours_at(0)), vec![b]);
    assert_eq!(ids_of(store.neighbours_at(1)), vec![a]);
}

#[test]
fn adjacency_is_judged_by_name_not_handle() {
    let mut store = AgentStore::new();
    store.create("twin".to_string(), 0, 0, false, None).unwrap();
    store.create("twin".to_string(), 0, 1, false, None).unwrap();
    recompute_all(&mut store);
    assert!(store.neighbours_at(0).is_empty());
    assert!(store.neighbours_at(1).is_empty());
}

#[test]
fn adjacency_snapshot_lists_keep_snapshot_order() {
    let mut store = AgentStore::new();
    store.create("M".to_string(), 0, 0, false, None).unwrap();
    let a = store.create("A".to_string(), 1, 0, false, None).unwrap();
    let b = store.create("B".to_string(), 0, 1, false, None).unwrap();
    let c = store.create("C".to_string(), 1, 1, false, None).unwrap();
    let snapshot = store.snapshot();
    let lists = recompute(&snapshot);
    assert_eq!(lists.len(), 4);
    assert_eq!(ids_of(&lists[0]), vec![a, b, c]);
}

#[test]
fn adjacency_predicate_is_chebyshev() {
    let at = |name: &str, x: i32, y: i32| AgentView { id: 0, name: name.to_string(), x, y };
    assert!(is_adjacent(&at("a", 0, 0), &at("b", 1, 1)));
    assert!(is_adjacent(&at("a", 0, 0), &at("b", -1, 1)));
    assert!(is_adjacent(&at("a", 0, 0), &at("b", 0, -1)));
    assert!(!is_adjacent(&at("a", 0, 0), &at("b", 2, 0)));
    assert!(!is_adjacent(&at("a", 0, 0), &at("b", 0, 2)));
    assert!(!is_adjacent(&at("a", 0, 0), &at("a", 0, 0)));
}

#[test]
fn countdown_cycle_produces_once() {
    let mut c = Countdown::new(4).unwrap();
    assert_eq!(c.ticks_remaining, 4);
    assert_eq!(c.count, 0);
    let mut fired = Vec::new();
    for _ in 0..4 {
        fired.push(c.pulse());
    }
    assert_eq!(fired, vec![false, false, false, true]);
    assert_eq!(c.count, 1);
    assert_eq!(c.ticks_remaining, 4);
}

#[test]
fn countdown_zero_total_is_rejected() {
    assert_eq!(Countdown::new(0).unwrap_err(), KernelError::InvalidConfig);
}

#[test]
fn countdown_resume_mid_cycle() {
    let mut c = Countdown::new_with_ticks(5, 2).unwrap();
    assert!(!c.pulse());
    assert!(c.pulse());
    assert_eq!(c.count, 1);
    assert_eq!(c.ticks_remaining, 5);
}

#[test]
fn countdown_resume_out_of_range_is_rejected() {
    assert_eq!(Countdown::new_with_ticks(5, 0).unwrap_err(), KernelError::InvalidConfig);
    assert_eq!(Countdown::new_with_ticks(5, 6).unwrap_err(), KernelError::InvalidConfig);
}

#[test]
fn clock_carries_remainder_forward() {
    let mut clock = Clock::new(250).unwrap();
    assert!(!clock.tick(100));
    assert!(!clock.tick(100));
    assert!(clock.tick(100));
    assert_eq!(clock.accumulated, 50);
    assert!(clock.tick(200));
    assert_eq!(clock.accumulated, 0);
}

#[test]
fn clock_zero_interval_is_rejected() {
    assert_eq!(Clock::new(0).unwrap_err(), KernelError::InvalidConfig);
}

#[test]
fn advance_countdowns_only_on_pulse() {
    let mut store = AgentStore::new();
    let g = store.create("gen".to_string(), 0, 0, false, Some(4)).unwrap();
    advance_countdowns(&mut store, false);
    let i = store.index_of(g).unwrap();
    assert_eq!(store.countdown_at(i).unwrap().ticks_remaining, 4);
    advance_countdowns(&mut store, true);
    assert_eq!(store.countdown_at(i).unwrap().ticks_remaining, 3);
}

#[test]
fn kernel_zero_interval_is_rejected() {
    assert!(matches!(Kernel::new(0), Err(KernelError::InvalidConfig)));
}

#[test]
fn kernel_step_runs_all_stages() {
    let mut kernel = Kernel::new(250).unwrap();
    let p = kernel.store.create("player".to_string(), 2, 2, true, None).unwrap();
    let a = kernel.store.create("A".to_string(), 0, 0, false, Some(4)).unwrap();
    let b = kernel.store.create("B".to_string(), 1, 1, false, Some(5)).unwrap();
    let draws: Vec<(i32, i32)> = Vec::new();
    let up = DirectionalInput { up: true, down: false, left: false, right: false };

    // A full interval elapses: the clock pulses, both countdowns advance,
    // the controlled agent steps up, and adjacency reflects the new layout.
    let pulsed = kernel.step(up, false, &draws, 250);
    assert!(pulsed);
    let vp = kernel.store.get(p).unwrap();
    assert_eq!((vp.x, vp.y), (2, 3));
    let ia = kernel.store.index_of(a).unwrap();
    let ib = kernel.store.index_of(b).unwrap();
    assert_eq!(kernel.store.countdown_at(ia).unwrap().ticks_remaining, 3);
    assert_eq!(kernel.store.countdown_at(ib).unwrap().ticks_remaining, 4);
    // Adjacency was computed after the move: the player at (2, 3) is within
    // reach of nobody, while A at (0, 0) and B at (1, 1) are mutual
    // neighbours.
    let ip = kernel.store.index_of(p).unwrap();
    assert_eq!(ids_of(kernel.store.neighbours_at(ip)), Vec::<u64>::new());
    assert_eq!(ids_of(kernel.store.neighbours_at(ia)), vec![b]);
    assert_eq!(ids_of(kernel.store.neighbours_at(ib)), vec![a]);

    // A short tick: no pulse, countdowns hold.
    let none = DirectionalInput { up: false, down: false, left: false, right: false };
    let pulsed = kernel.step(none, false, &draws, 100);
    assert!(!pulsed);
    assert_eq!(kernel.store.countdown_at(ia).unwrap().ticks_remaining, 3);

    // Three more pulses: A's countdown of four completes and produces once.
    for _ in 0..3 {
        assert!(kernel.step(none, false, &draws, 250));
    }
    assert_eq!(kernel.store.countdown_at(ia).unwrap().count, 1);
    assert_eq!(kernel.store.countdown_at(ia).unwrap().ticks_remaining, 4);
    assert_eq!(kernel.store.countdown_at(ib).unwrap().count, 0);
    assert_eq!(kernel.store.countdown_at(ib).unwrap().ticks_remaining, 1);
}

#[test]
fn kernel_step_reposition_leaves_controlled() {
    let mut kernel = Kernel::new(250).unwrap();
    let p = kernel.store.create("player".to_string(), 40, 40, true, None).unwrap();
    let a = kernel.store.create("A".to_string(), 30, 30, false, None).unwrap();
    let none = DirectionalInput { up: false, down: false, left: false, right: false };
    let draws = vec![(2, 2), (-4, 0)];
    kernel.step(none, true, &draws, 10);
    let vp = kernel.store.get(p).unwrap();
    assert_eq!((vp.x, vp.y), (40, 40));
    let va = kernel.store.get(a).unwrap();
    assert_eq!((va.x, va.y), (-4, 0));
}
