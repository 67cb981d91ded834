use tauri_core::event::{EmitArgs, EventName, EventTarget};
use tauri_core::listener::{events_for, EmitPlan, EmitPlanWith, Listeners, Pending};

fn args(event: &str, payload: &str) -> EmitArgs {
    EmitArgs::new_str(EventName::new(event).unwrap(), payload.to_string()).unwrap()
}

#[test]
fn a_listener_receives_the_events_of_its_name() {
    let mut l: Listeners<&'static str> = Listeners::new();
    let id = l.listen("ev".to_string(), EventTarget::Any, "handler");
    assert_eq!(id, 0);
    match l.begin_emit(args("ev", "1"), None) {
        EmitPlan::Run(ids) => assert_eq!(ids, vec![id]),
        _ => panic!("expected the listener to run"),
    }
    assert_eq!(l.handler("ev", id), Some(&"handler"));
    assert!(l.end_emit().is_empty());
    assert!(matches!(l.begin_emit(args("other", "1"), None), EmitPlan::NoListener));
}

#[test]
fn ids_count_up() {
    let mut l: Listeners<u8> = Listeners::new();
    assert_eq!(l.listen("a".into(), EventTarget::Any, 1), 0);
    assert_eq!(l.listen("a".into(), EventTarget::Any, 2), 1);
    assert_eq!(l.next_event_id(), 2);
}

#[test]
fn emit_to_filters_listeners_by_target() {
    let mut l: Listeners<u8> = Listeners::new();
    let w = l.listen("ev".into(), EventTarget::window("main"), 1);
    let v = l.listen("ev".into(), EventTarget::webview("main"), 2);
    let any = l.listen("ev".into(), EventTarget::Any, 3);
    match l.begin_emit(args("ev", "x"), Some(&EventTarget::window("main"))) {
        EmitPlan::Run(ids) => assert_eq!(ids, vec![w, any]),
        _ => panic!(),
    }
    l.end_emit();
    match l.begin_emit(args("ev", "x"), Some(&EventTarget::labeled("main"))) {
        EmitPlan::Run(ids) => assert_eq!(ids, vec![w, v, any]),
        _ => panic!(),
    }
}

#[test]
fn unlisten_stops_delivery() {
    let mut l: Listeners<u8> = Listeners::new();
    let id = l.listen("ev".into(), EventTarget::Any, 1);
    l.unlisten(id);
    assert!(matches!(l.begin_emit(args("ev", "x"), None), EmitPlan::NoListener));
    assert_eq!(l.handler("ev", id), None);
}

#[test]
fn actions_during_an_emit_are_deferred_in_order() {
    let mut l: Listeners<u8> = Listeners::new();
    let first = l.listen("ev".into(), EventTarget::Any, 1);
    assert!(matches!(l.begin_emit(args("ev", "x"), None), EmitPlan::Run(_)));
    // while the listeners run, everything waits
    let second = l.listen("ev".into(), EventTarget::Any, 2);
    l.unlisten(first);
    assert!(matches!(l.begin_emit(args("ev", "y"), None), EmitPlan::Deferred));
    assert_eq!(l.handler("ev", second), None);
    let pending = l.end_emit();
    assert_eq!(pending.len(), 3);
    assert!(matches!(&pending[0], Pending::Listen { id, .. } if *id == second));
    assert!(matches!(&pending[1], Pending::Unlisten(id) if *id == first));
    assert!(matches!(&pending[2], Pending::Emit { args: a, filter: None } if a.payload() == "y"));
    // applying them
    for action in pending {
        match action {
            Pending::Listen { id, event, target, handler } => l.listen_with_id(id, event, target, handler),
            Pending::Unlisten(id) => l.unlisten(id),
            Pending::Emit { args: a, filter } => match l.begin_emit(a, filter.as_ref()) {
                EmitPlan::Run(ids) => {
                    assert_eq!(ids, vec![second]);
                    assert!(l.end_emit().is_empty());
                }
                _ => panic!(),
            },
            Pending::EmitWith { .. } => panic!(),
        }
    }
}

#[test]
fn listening_again_with_the_same_id_replaces() {
    let mut l: Listeners<u8> = Listeners::new();
    l.listen_with_id(5, "ev".into(), EventTarget::Any, 1);
    l.listen_with_id(5, "ev".into(), EventTarget::Any, 2);
    assert_eq!(l.handler("ev", 5), Some(&2));
    match l.begin_emit(args("ev", "x"), None) {
        EmitPlan::Run(ids) => assert_eq!(ids, vec![5]),
        _ => panic!(),
    }
}

#[test]
fn frontend_listeners() {
    let mut l: Listeners<u8> = Listeners::new();
    l.listen_js("ev", "main", EventTarget::Any, 1);
    l.listen_js("ev", "main", EventTarget::Any, 1);
    l.listen_js("ev", "main", EventTarget::window("main"), 2);
    l.listen_js("ev", "other", EventTarget::Any, 3);
    assert_eq!(l.js_listener_ids("main", "ev", None), vec![1, 2]);
    assert_eq!(l.js_listener_ids("main", "ev", Some(&EventTarget::window("nope"))), vec![1]);
    assert!(l.has_js_listener("ev", Some(&EventTarget::window("main"))));
    assert!(!l.has_js_listener("nothing", None));
    l.unlisten_js("ev", 1);
    assert_eq!(l.js_listener_ids("main", "ev", None), vec![2]);
    assert_eq!(l.js_listener_ids("other", "ev", None), vec![3]);
}

#[test]
fn names_of_the_frontend_objects() {
    let l: Listeners<u8> = Listeners::new();
    assert_eq!(l.function_name(), "__internal_unstable_listeners_function_id__");
    assert_eq!(l.listeners_object_name(), "__internal_unstable_listeners_object_id__");
}

#[test]
fn a_deferred_emit_keeps_its_filter() {
    let mut l: Listeners<u8> = Listeners::new();
    let main = l.listen("ev".into(), EventTarget::window("main"), 1);
    l.listen("ev".into(), EventTarget::window("other"), 2);
    assert!(matches!(l.begin_emit(args("ev", "x"), None), EmitPlan::Run(_)));
    let only_main = EventTarget::window("main");
    assert!(matches!(l.begin_emit(args("ev", "y"), Some(&only_main)), EmitPlan::Deferred));
    let pending = l.end_emit();
    assert_eq!(pending.len(), 1);
    match pending.into_iter().next().unwrap() {
        Pending::Emit { args: a, filter } => {
            assert_eq!(filter, Some(EventTarget::window("main")));
            match l.begin_emit(a, filter.as_ref()) {
                EmitPlan::Run(ids) => assert_eq!(ids, vec![main]),
                _ => panic!(),
            }
        }
        _ => panic!(),
    }
}

#[test]
fn emit_with_a_predicate_reaches_any_and_accepted_targets() {
    let mut l: Listeners<u8> = Listeners::new();
    let any = l.listen("ev".into(), EventTarget::Any, 1);
    let main = l.listen("ev".into(), EventTarget::window("main"), 2);
    l.listen("ev".into(), EventTarget::window("other"), 3);
    l.listen("other-event".into(), EventTarget::window("main"), 4);
    let asked = std::cell::Cell::new(0u32);
    let plan = l.begin_emit_with(args("ev", "x"), |t: &EventTarget| {
        asked.set(asked.get() + 1);
        *t == EventTarget::window("main")
    });
    assert_eq!(plan, EmitPlanWith::Run(vec![any, main]));
    // asked for the two non-`Any` listeners of the event only
    assert_eq!(asked.get(), 2);
    // while they run, emits with predicates are deferred and numbered
    assert_eq!(l.begin_emit_with(args("ev", "y"), |_t: &EventTarget| true), EmitPlanWith::Deferred(0));
    assert!(matches!(l.begin_emit(args("ev", "z"), None), EmitPlan::Deferred));
    assert_eq!(l.begin_emit_with(args("ev", "w"), |_t: &EventTarget| false), EmitPlanWith::Deferred(1));
    let pending = l.end_emit();
    assert_eq!(pending.len(), 3);
    assert!(matches!(&pending[0], Pending::EmitWith { args: a, slot: 0 } if a.payload() == "y"));
    assert!(matches!(&pending[2], Pending::EmitWith { args: a, slot: 1 } if a.payload() == "w"));
    assert_eq!(l.begin_emit_with(args("none", "x"), |_t: &EventTarget| true), EmitPlanWith::NoListener);
}

#[test]
fn each_running_listener_gets_its_id_and_the_payload() {
    let events = events_for(&vec![3, 1], "{\"a\":1}");
    assert_eq!(events.len(), 2);
    assert_eq!(events[0].id(), 3);
    assert_eq!(events[1].id(), 1);
    assert_eq!(events[1].payload(), "{\"a\":1}");
}
