use rustato::{
    get_global_state, register_global_state, unregister_global_state, GlobalState,
    GlobalStateContainer, GlobalStateRegistry, Signal, State, StateManager, StateWrapper,
    StateWriteGuard,
};
use std::any::TypeId;
use std::sync::{Arc, Mutex, RwLock};

fn plan_of(cell: &mut GlobalState<i32, u8>, guard_fields: &[&str]) -> Vec<(String, usize)> {
    let mut guard = cell.write();
    for f in guard_fields {
        guard.register_change(f);
    }
    cell.release(guard).into_iter().map(|n| (n.field, n.observer)).collect()
}

#[test]
fn release_calls_each_observer_once_per_field() {
    let mut cell: GlobalState<i32, u8> = GlobalState::new(5);
    cell.on_change(10);
    cell.on_change(20);
    *cell.get_mut() = 6;
    let plan = plan_of(&mut cell, &["a", "b"]);
    assert_eq!(
        plan,
        vec![
            ("a".to_string(), 0),
            ("a".to_string(), 1),
            ("b".to_string(), 0),
            ("b".to_string(), 1)
        ]
    );
    assert_eq!(*cell.read(), 6);
    cell.on_change(30);
    assert_eq!(*cell.callback(2), 30);
    let plan = plan_of(&mut cell, &[]);
    assert!(plan.is_empty());
}

#[test]
fn release_delivers_fields_marked_on_the_cell_first() {
    let mut cell: GlobalState<i32, u8> = GlobalState::new(0);
    cell.on_change(1);
    cell.register_change("early");
    let plan = plan_of(&mut cell, &["late"]);
    assert_eq!(plan, vec![("early".to_string(), 0), ("late".to_string(), 0)]);
    let plan = plan_of(&mut cell, &[]);
    assert!(plan.is_empty());
}

#[test]
fn release_without_observers_owes_nothing() {
    let mut cell: GlobalState<i32, u8> = GlobalState::new(0);
    let plan = plan_of(&mut cell, &["x", "x"]);
    assert!(plan.is_empty());
    assert_eq!(cell.callback_count(), 0);
}

#[test]
fn run_callbacks_lists_every_observer() {
    let mut cell: GlobalState<i32, u8> = GlobalState::new(0);
    cell.on_change(1);
    cell.on_change(2);
    cell.on_change(3);
    let calls: Vec<(String, usize)> =
        cell.run_callbacks(&"f".to_string()).into_iter().map(|n| (n.field, n.observer)).collect();
    assert_eq!(calls, vec![("f".to_string(), 0), ("f".to_string(), 1), ("f".to_string(), 2)]);
}

#[test]
fn register_then_get_yields_the_value() {
    let mut reg: GlobalStateRegistry<Arc<RwLock<i32>>> = GlobalStateRegistry::new();
    register_global_state(&mut reg, "n", Arc::new(RwLock::new(7)));
    let h = get_global_state(&reg, "n").unwrap().clone();
    assert_eq!(*h.read().unwrap(), 7);
    assert!(get_global_state(&reg, "m").is_none());
}

#[test]
fn register_again_overwrites() {
    let mut reg: GlobalStateRegistry<i32> = GlobalStateRegistry::new();
    register_global_state(&mut reg, "n", 1);
    register_global_state(&mut reg, "k", 3);
    register_global_state(&mut reg, "n", 2);
    assert_eq!(get_global_state(&reg, "n"), Some(&2));
    assert_eq!(get_global_state(&reg, "k"), Some(&3));
}

#[test]
fn unregister_keeps_outstanding_handles() {
    let mut reg: GlobalStateRegistry<Arc<RwLock<i32>>> = GlobalStateRegistry::new();
    register_global_state(&mut reg, "n", Arc::new(RwLock::new(1)));
    register_global_state(&mut reg, "other", Arc::new(RwLock::new(9)));
    let held = get_global_state(&reg, "n").unwrap().clone();
    unregister_global_state(&mut reg, "n");
    assert!(get_global_state(&reg, "n").is_none());
    assert_eq!(*get_global_state(&reg, "other").unwrap().read().unwrap(), 9);
    *held.write().unwrap() += 1;
    assert_eq!(*held.read().unwrap(), 2);
    unregister_global_state(&mut reg, "absent");
    assert!(get_global_state(&reg, "other").is_some());
}

#[test]
fn type_keyed_store_keeps_one_instance_and_sums_updates() {
    let mut store: GlobalStateContainer<Arc<Mutex<i64>>> = GlobalStateContainer::new();
    let key = TypeId::of::<i64>();
    for i in 0..10i64 {
        let h = store.get_or_create(key, || Arc::new(Mutex::new(0)));
        *h.lock().unwrap() += i;
    }
    let h = store.get_or_create(key, || Arc::new(Mutex::new(100)));
    assert_eq!(*h.lock().unwrap(), 45);
}

#[test]
fn type_keyed_store_drop_gives_fresh_default() {
    let mut store: GlobalStateContainer<Arc<Mutex<i64>>> = GlobalStateContainer::new();
    let a = TypeId::of::<i64>();
    let b = TypeId::of::<u8>();
    let h = store.get_or_create(a, || Arc::new(Mutex::new(0)));
    *h.lock().unwrap() = 5;
    let other = store.get_or_create(b, || Arc::new(Mutex::new(8)));
    store.drop(a);
    let fresh = store.get_or_create(a, || Arc::new(Mutex::new(0)));
    assert_eq!(*fresh.lock().unwrap(), 0);
    assert_eq!(*h.lock().unwrap(), 5);
    assert_eq!(*store.get_or_create(b, || Arc::new(Mutex::new(0))).lock().unwrap(), 8);
    assert_eq!(*other.lock().unwrap(), 8);
}

#[test]
fn signal_sets_are_delivered_in_order() {
    let mut s: Signal<String, u8, ()> = Signal::new("a".to_string(), "name".to_string());
    let c1 = s.set("x".to_string());
    let c2 = s.set("y".to_string());
    assert_eq!((c1.old.as_str(), c1.new.as_str()), ("a", "x"));
    assert_eq!((c2.old.as_str(), c2.new.as_str()), ("x", "y"));
    assert_eq!(s.get(), "y");
}

#[test]
fn signal_parent_link_and_name() {
    let s: Signal<i32, u8, u32> = Signal::new(1, "count".to_string());
    assert!(s.parent_link().is_none());
    let s = s.with_parent(77);
    assert_eq!(s.parent_link(), Some(&77));
    assert_eq!(s.name(), "count");
    assert_eq!(s.get(), 1);
}

#[test]
fn signal_observers_keep_order() {
    let mut s: Signal<i32, u8, ()> = Signal::new(0, "v".to_string());
    s.on_change(4);
    s.on_change(5);
    assert_eq!(s.callback_count(), 2);
    assert_eq!((*s.callback(0), *s.callback(1)), (4, 5));
}

#[test]
fn state_manager_release_notifies_all() {
    let mut m: StateManager<Arc<RwLock<(i32, i32)>>, u8> = StateManager::new();
    m.register_state("pair", Arc::new(RwLock::new((1, 2))));
    m.register_callback("pair", 7);
    m.register_callback("pair", 8);
    m.register_callback("else", 9);
    let st: State<Arc<RwLock<(i32, i32)>>> = m.get_state("pair").unwrap();
    let guard = st.write();
    st.read().get().write().unwrap().1 = 5;
    let plan: Vec<(String, usize)> =
        m.release_write(guard).into_iter().map(|n| (n.field, n.observer)).collect();
    assert_eq!(plan, vec![("all".to_string(), 0), ("all".to_string(), 1)]);
    assert_eq!(*m.callback("pair", 1), 8);
    assert_eq!(*st.read().get().read().unwrap(), (1, 5));
}

#[test]
fn state_manager_absent_id() {
    let mut m: StateManager<i32, u8> = StateManager::new();
    assert!(m.get_state("x").is_none());
    assert_eq!(m.callback_count("x"), 0);
    assert!(m.notify_state_change("x", "f").is_empty());
    m.register_state("x", 3);
    m.register_state("x", 4);
    assert_eq!(*m.get_state("x").unwrap().read().get(), 4);
    let g = StateWriteGuard::new("y".to_string());
    assert_eq!(g.id_str(), "y");
    assert!(m.release_write(g).is_empty());
}

#[test]
fn notify_state_change_uses_given_field() {
    let mut m: StateManager<i32, u8> = StateManager::new();
    m.register_callback("id", 1);
    let plan: Vec<(String, usize)> =
        m.notify_state_change("id", "count").into_iter().map(|n| (n.field, n.observer)).collect();
    assert_eq!(plan, vec![("count".to_string(), 0)]);
}

#[test]
fn state_wrapper_gives_access() {
    let mut w = StateWrapper::new(3);
    assert_eq!(*w.get_ref(), 3);
    *w.get_mut() = 4;
    assert_eq!(*w.get_ref(), 4);
}
