use es_runtime::reflection::{canonical_name, ProxyBuilder, StaticMember};
use es_runtime::registry::{
    call_failure_message, get_proxy, strip_accessor_prefix, ConstructError, InstanceTag, ProxyRegistry, Resolution,
};
use std::cell::{Cell, RefCell};
use std::collections::HashSet;
use std::rc::Rc;

/// Handlers as a host would register them, over integer script values.
enum Handler {
    Ctor(Box<dyn Fn(&[i32]) -> Result<i32, String>>),
    Get(Box<dyn Fn(i32) -> Result<i32, String>>),
    Put(Box<dyn Fn(i32, i32) -> Result<(), String>>),
    Method(Box<dyn Fn(i32, &[i32]) -> Result<i32, String>>),
    Fin(Box<dyn Fn(i32)>),
    StaticGet(Box<dyn Fn() -> Result<i32, String>>),
    StaticSet(Box<dyn Fn(i32) -> Result<(), String>>),
    StaticMethod(Box<dyn Fn(&[i32]) -> Result<i32, String>>),
}

/// An engine object as the tests stand in for it: its tag and the members defined on it.
struct ScriptObject {
    address: usize,
    tag: InstanceTag,
    defined: HashSet<String>,
}

fn construct(reg: &mut ProxyRegistry<Handler>, class: &str, address: usize, args: &[i32]) -> Result<ScriptObject, ConstructError> {
    let outcome = match reg.begin_construct(class)? {
        Handler::Ctor(c) => c(args),
        _ => panic!("not a constructor"),
    };
    let tag = reg.finish_construct(class, address, outcome)?;
    Ok(ScriptObject { address, tag, defined: HashSet::new() })
}

/// First access of `name` goes through the resolution hook; `defines` counts the definitions.
fn touch(reg: &ProxyRegistry<Handler>, obj: &mut ScriptObject, name: &str, defines: &Cell<u32>) -> bool {
    if obj.defined.contains(name) {
        return true;
    }
    match reg.resolve(&obj.tag.class_name, name) {
        Resolution::NotMine => false,
        _ => {
            defines.set(defines.get() + 1);
            obj.defined.insert(name.to_string());
            true
        },
    }
}

fn read(reg: &ProxyRegistry<Handler>, obj: &mut ScriptObject, name: &str, defines: &Cell<u32>) -> Result<i32, String> {
    assert!(touch(reg, obj, name, defines));
    match reg.instance_getter(&obj.tag, &format!("get {}", name)) {
        Some((Handler::Get(g), id)) => g(id).map_err(|e| call_failure_message("method", name, &e)),
        _ => panic!("no getter"),
    }
}

fn write(reg: &ProxyRegistry<Handler>, obj: &mut ScriptObject, name: &str, v: i32, defines: &Cell<u32>) -> Result<(), String> {
    assert!(touch(reg, obj, name, defines));
    match reg.instance_setter(&obj.tag, &format!("set {}", name)) {
        Some((Handler::Put(s), id)) => s(id, v).map_err(|e| call_failure_message("setter", name, &e)),
        _ => panic!("no setter"),
    }
}

fn invoke(reg: &ProxyRegistry<Handler>, obj: &mut ScriptObject, name: &str, args: &[i32], defines: &Cell<u32>) -> Result<i32, String> {
    assert!(touch(reg, obj, name, defines));
    match reg.instance_method(&obj.tag, name) {
        Some((Handler::Method(m), id)) => m(id, args).map_err(|e| call_failure_message("method", name, &e)),
        _ => panic!("no method"),
    }
}

fn dispatch(reg: &ProxyRegistry<Handler>, class: &str, id: i32, event: &str, calls: &RefCell<Vec<u64>>) {
    for l in reg.dispatch_event(class, id, event) {
        calls.borrow_mut().push(l);
    }
}

#[test]
fn test_proxy() {
    let mut reg: ProxyRegistry<Handler> = ProxyRegistry::new();
    let finalized = Rc::new(RefCell::new(Vec::new()));
    let fin = finalized.clone();
    let calls = Rc::new(Cell::new(0));
    let ca = calls.clone();
    let cb = calls.clone();
    let name = ProxyBuilder::new(vec![], "TestClass1")
        .constructor(Handler::Ctor(Box::new(|_args| Ok(1))))
        .property("foo", Handler::Get(Box::new(|_id| Ok(123))), Handler::Put(Box::new(|_id, _v| Ok(()))))
        .property("bar", Handler::Get(Box::new(|_id| Ok(456))), Handler::Put(Box::new(|_id, _v| Ok(()))))
        .finalizer(Handler::Fin(Box::new(move |id| fin.borrow_mut().push(id))))
        .method("methodA", Handler::Method(Box::new(move |_id, _args| { ca.set(ca.get() + 1); Ok(0) })))
        .method("methodB", Handler::Method(Box::new(move |_id, _args| { cb.set(cb.get() + 1); Ok(0) })))
        .event("saved")
        .build(&mut reg);
    assert_eq!(name, ".TestClass1");
    let defines = Cell::new(0);
    let mut tp_obj = construct(&mut reg, &name, 0x1000, &[7]).ok().unwrap();
    assert!(!touch(&reg, &mut tp_obj, "abc", &defines));
    let tp_i = read(&reg, &mut tp_obj, "foo", &defines).unwrap();
    write(&reg, &mut tp_obj, "foo", 987, &defines).unwrap();
    for _ in 0..3 {
        invoke(&reg, &mut tp_obj, "methodA", &[1, 2, 3], &defines).unwrap();
    }
    invoke(&reg, &mut tp_obj, "methodB", &[1], &defines).unwrap();
    assert_eq!(calls.get(), 4);
    assert!(reg.add_event_listener(&name, Some(1), "saved", 77));
    let seen = RefCell::new(Vec::new());
    dispatch(&reg, &name, 1, "saved", &seen);
    assert_eq!(*seen.borrow(), vec![77]);
    let done = reg.finalize(tp_obj.address).unwrap();
    if let Some(Handler::Fin(f)) = get_proxy(&reg, &done.class_name).unwrap().finalizer_handler() {
        f(done.instance_id);
    }
    assert_eq!(*finalized.borrow(), vec![1]);
    assert_eq!(tp_i, 123);
}

#[test]
fn test_static_proxy() {
    let mut reg: ProxyRegistry<Handler> = ProxyRegistry::new();
    let name = ProxyBuilder::new(vec![], "TestClass2")
        .static_property("foo", Handler::StaticGet(Box::new(|| Ok(123))), Handler::StaticSet(Box::new(|_v| Ok(()))))
        .static_property("bar", Handler::StaticGet(Box::new(|| Ok(456))), Handler::StaticSet(Box::new(|_v| Ok(()))))
        .static_method("methodA", Handler::StaticMethod(Box::new(|args| Ok(args.len() as i32))))
        .static_method("methodB", Handler::StaticMethod(Box::new(|args| Ok(args.len() as i32))))
        .static_event("saved")
        .build(&mut reg);
    let proxy = get_proxy(&reg, &name).unwrap();
    assert_eq!(
        proxy.static_members(),
        vec![
            StaticMember::Accessor("foo".to_string()),
            StaticMember::Accessor("bar".to_string()),
            StaticMember::Method("methodA".to_string()),
            StaticMember::Method("methodB".to_string()),
            StaticMember::AddEventListener,
            StaticMember::RemoveEventListener,
            StaticMember::DispatchEvent,
        ]
    );
    let tsp_i = match reg.static_getter(&name, "get foo") {
        Some(Handler::StaticGet(g)) => g().unwrap(),
        _ => panic!("no static getter"),
    };
    match reg.static_setter(&name, "set foo") {
        Some(Handler::StaticSet(s)) => s(987).unwrap(),
        _ => panic!("no static setter"),
    }
    match reg.static_method(&name, "methodA") {
        Some(Handler::StaticMethod(m)) => assert_eq!(m(&[1, 2, 3]).unwrap(), 3),
        _ => panic!("no static method"),
    }
    assert!(reg.add_event_listener(&name, None, "saved", 5));
    assert_eq!(reg.dispatch_static_event(&name, "saved"), vec![5]);
    assert!(reg.static_getter(&name, "get abc").is_none());
    assert_eq!(tsp_i, 123);
}

#[test]
fn property_round_trip_and_lazy_definition() {
    let mut reg: ProxyRegistry<Handler> = ProxyRegistry::new();
    let store = Rc::new(Cell::new(0));
    let (g, s, m) = (store.clone(), store.clone(), store.clone());
    let seen_ids = Rc::new(RefCell::new(Vec::new()));
    let si = seen_ids.clone();
    let name = ProxyBuilder::new(vec!["app"], "Foo")
        .constructor(Handler::Ctor(Box::new(|_| Ok(42))))
        .property("count", Handler::Get(Box::new(move |id| { si.borrow_mut().push(id); Ok(g.get()) })), Handler::Put(Box::new(move |_id, v| { s.set(v); Ok(()) })))
        .method("inc", Handler::Method(Box::new(move |_id, _| { m.set(m.get() + 1); Ok(0) })))
        .build(&mut reg);
    let defines = Cell::new(0);
    let mut foo = construct(&mut reg, &name, 0x2000, &[]).ok().unwrap();
    assert_eq!(foo.tag.instance_id, 42);
    assert_eq!(read(&reg, &mut foo, "count", &defines), Ok(0));
    invoke(&reg, &mut foo, "inc", &[], &defines).unwrap();
    assert_eq!(read(&reg, &mut foo, "count", &defines), Ok(1));
    write(&reg, &mut foo, "count", 17, &defines).unwrap();
    assert_eq!(read(&reg, &mut foo, "count", &defines), Ok(17));
    // "count" and "inc" were each defined once, however often they were used
    assert_eq!(defines.get(), 2);
    assert!(seen_ids.borrow().iter().all(|id| *id == 42));
}

#[test]
fn listeners_run_in_order_and_removal_drops_the_first() {
    let mut reg: ProxyRegistry<Handler> = ProxyRegistry::new();
    let name = ProxyBuilder::new(vec!["ns"], "A")
        .constructor(Handler::Ctor(Box::new(|_| Ok(3))))
        .event("changed")
        .build(&mut reg);
    let _obj = construct(&mut reg, &name, 0x10, &[]).ok().unwrap();
    assert!(reg.add_event_listener(&name, Some(3), "changed", 1));
    assert!(reg.add_event_listener(&name, Some(3), "changed", 2));
    let calls = RefCell::new(Vec::new());
    dispatch(&reg, &name, 3, "changed", &calls);
    assert_eq!(*calls.borrow(), vec![1, 2]);
    reg.remove_event_listener(&name, Some(3), "changed", 1);
    calls.borrow_mut().clear();
    dispatch(&reg, &name, 3, "changed", &calls);
    assert_eq!(*calls.borrow(), vec![2]);
    // removing what is not registered changes nothing
    reg.remove_event_listener(&name, Some(3), "changed", 9);
    assert_eq!(reg.dispatch_event(&name, 3, "changed"), vec![2]);
}

#[test]
fn removal_takes_only_the_oldest_of_equal_listeners() {
    let mut reg: ProxyRegistry<Handler> = ProxyRegistry::new();
    let name = ProxyBuilder::new(vec![], "E").static_event("tick").build(&mut reg);
    assert!(reg.add_event_listener(&name, None, "tick", 4));
    assert!(reg.add_event_listener(&name, None, "tick", 5));
    assert!(reg.add_event_listener(&name, None, "tick", 4));
    reg.remove_event_listener(&name, None, "tick", 4);
    assert_eq!(reg.dispatch_static_event(&name, "tick"), vec![5, 4]);
}

#[test]
fn undeclared_event_is_refused() {
    let mut reg: ProxyRegistry<Handler> = ProxyRegistry::new();
    let name = ProxyBuilder::new(vec![], "E").event("saved").build(&mut reg);
    assert!(!reg.add_event_listener(&name, Some(1), "deleted", 1));
    assert!(!reg.add_event_listener(&name, None, "saved", 1));
    assert!(!reg.add_event_listener("nope.E", Some(1), "saved", 1));
    assert!(reg.dispatch_event(&name, 1, "deleted").is_empty());
}

#[test]
fn finalize_runs_once_and_clears_listeners() {
    let mut reg: ProxyRegistry<Handler> = ProxyRegistry::new();
    let name = ProxyBuilder::new(vec![], "F")
        .constructor(Handler::Ctor(Box::new(|_| Ok(8))))
        .event("saved")
        .build(&mut reg);
    let obj = construct(&mut reg, &name, 0x30, &[]).ok().unwrap();
    assert!(reg.add_event_listener(&name, Some(8), "saved", 11));
    let done = reg.finalize(obj.address).unwrap();
    assert_eq!(done.instance_id, 8);
    assert_eq!(done.class_name, name);
    assert!(reg.dispatch_event(&name, 8, "saved").is_empty());
    assert!(reg.finalize(obj.address).is_none());
    assert!(reg.finalize(0x9999).is_none());
}

#[test]
fn lookups_by_canonical_name_and_last_registration_wins() {
    let mut reg: ProxyRegistry<Handler> = ProxyRegistry::new();
    let a = ProxyBuilder::new(vec!["ns"], "A")
        .constructor(Handler::Ctor(Box::new(|_| Ok(1))))
        .property("x", Handler::Get(Box::new(|_| Ok(10))), Handler::Put(Box::new(|_, _| Ok(()))))
        .build(&mut reg);
    let b = ProxyBuilder::new(vec!["ns"], "B").build(&mut reg);
    assert_eq!(a, "ns.A");
    assert_eq!(b, "ns.B");
    assert_eq!(get_proxy(&reg, "ns.A").unwrap().class_name, "A");
    assert_eq!(get_proxy(&reg, "ns.B").unwrap().class_name, "B");
    assert!(get_proxy(&reg, "ns.C").is_none());
    let defines = Cell::new(0);
    let mut old_obj = construct(&mut reg, "ns.A", 0x40, &[]).ok().unwrap();
    assert_eq!(read(&reg, &mut old_obj, "x", &defines), Ok(10));
    // a second class under the same canonical name replaces the first
    ProxyBuilder::new(vec!["ns"], "A")
        .property("x", Handler::Get(Box::new(|_| Ok(20))), Handler::Put(Box::new(|_, _| Ok(()))))
        .build(&mut reg);
    assert!(get_proxy(&reg, "ns.A").unwrap().constructor_handler().is_none());
    // the live instance's already defined member now reaches the new definition, without failing
    assert_eq!(read(&reg, &mut old_obj, "x", &defines), Ok(20));
    assert!(matches!(construct(&mut reg, "ns.A", 0x41, &[]), Err(ConstructError::NoSuchClass)));
}

#[test]
fn construction_errors() {
    let mut reg: ProxyRegistry<Handler> = ProxyRegistry::new();
    let name = ProxyBuilder::new(vec![], "Bad")
        .constructor(Handler::Ctor(Box::new(|_| Err("no room".to_string()))))
        .build(&mut reg);
    assert!(matches!(construct(&mut reg, "Missing", 0x50, &[]), Err(ConstructError::NoSuchClass)));
    match construct(&mut reg, &name, 0x51, &[]) {
        Err(ConstructError::Failed(m)) => assert_eq!(m, "no room"),
        _ => panic!("expected the constructor's error"),
    }
    assert!(reg.finalize(0x51).is_none());
}

#[test]
fn handler_errors_become_call_failures() {
    let mut reg: ProxyRegistry<Handler> = ProxyRegistry::new();
    let name = ProxyBuilder::new(vec![], "G")
        .constructor(Handler::Ctor(Box::new(|_| Ok(2))))
        .method("boom", Handler::Method(Box::new(|_, _| Err("bad input".to_string()))))
        .build(&mut reg);
    let defines = Cell::new(0);
    let mut obj = construct(&mut reg, &name, 0x60, &[]).ok().unwrap();
    assert_eq!(invoke(&reg, &mut obj, "boom", &[], &defines), Err("method boom failed\ncaused by: bad input".to_string()));
}

#[test]
fn resolution_order() {
    let mut reg: ProxyRegistry<Handler> = ProxyRegistry::new();
    let name = ProxyBuilder::new(vec!["a", "b"], "R")
        .property("p", Handler::Get(Box::new(|_| Ok(0))), Handler::Put(Box::new(|_, _| Ok(()))))
        .method("m", Handler::Method(Box::new(|_, _| Ok(0))))
        .native_method("n", Handler::Method(Box::new(|_, _| Ok(0))))
        .property("addEventListener", Handler::Get(Box::new(|_| Ok(0))), Handler::Put(Box::new(|_, _| Ok(()))))
        .build(&mut reg);
    assert_eq!(name, "a.b.R");
    assert_eq!(reg.resolve(&name, "addEventListener"), Resolution::AddEventListener);
    assert_eq!(reg.resolve(&name, "removeEventListener"), Resolution::RemoveEventListener);
    assert_eq!(reg.resolve(&name, "dispatchEvent"), Resolution::DispatchEvent);
    assert_eq!(reg.resolve(&name, "p"), Resolution::Property);
    assert_eq!(reg.resolve(&name, "m"), Resolution::Method);
    assert_eq!(reg.resolve(&name, "n"), Resolution::NativeMethod);
    assert_eq!(reg.resolve(&name, "q"), Resolution::NotMine);
    assert_eq!(reg.resolve("x.R", "p"), Resolution::NotMine);
}

#[test]
fn names_and_messages() {
    assert_eq!(canonical_name(&vec![], &"C".to_string()), ".C");
    assert_eq!(canonical_name(&vec!["x".to_string()], &"C".to_string()), "x.C");
    assert_eq!(canonical_name(&vec!["x".to_string(), "y".to_string()], &"C".to_string()), "x.y.C");
    assert_eq!(strip_accessor_prefix("get foo", "get "), "foo");
    assert_eq!(strip_accessor_prefix("foo", "get "), "foo");
    assert_eq!(strip_accessor_prefix("set ", "set "), "");
    assert_eq!(call_failure_message("setter", "x", "why"), "setter x failed\ncaused by: why");
}
