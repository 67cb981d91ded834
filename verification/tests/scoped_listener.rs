use std::cell::RefCell;
use std::rc::Rc;

use tauri_core::scoped_listener::ScopedEventListeners;

struct Handler(Box<dyn Fn(&mut ScopedEventListeners<Handler>, &u32)>);

fn handler(f: impl Fn(&mut ScopedEventListeners<Handler>, &u32) + 'static) -> Handler {
    Handler(Box::new(f))
}

/// Runs the listeners of `label` with `event`, as the event loop does.
fn dispatch(listeners: &mut ScopedEventListeners<Handler>, label: &str, event: &u32) {
    let handlers = listeners.begin_dispatch(label);
    for h in handlers.iter() {
        (h.0)(listeners, event);
    }
    listeners.end_dispatch(label, handlers);
}

#[test]
fn dispatches_in_registration_order_to_the_matching_label_only() {
    let mut listeners = ScopedEventListeners::<Handler>::new();
    let seen = Rc::new(RefCell::new(Vec::new()));

    for tag in ["a1", "a2"] {
        let seen = seen.clone();
        listeners.add("a", handler(move |_, e| seen.borrow_mut().push((tag, *e))));
    }
    let seen_b = seen.clone();
    listeners.add("b", handler(move |_, e| seen_b.borrow_mut().push(("b1", *e))));

    dispatch(&mut listeners, "a", &7);

    assert_eq!(*seen.borrow(), vec![("a1", 7), ("a2", 7)]);
}

#[test]
fn registering_for_another_label_while_dispatching() {
    let mut listeners = ScopedEventListeners::<Handler>::new();
    let seen = Rc::new(RefCell::new(Vec::new()));

    let seen_ = seen.clone();
    listeners.add(
        "a",
        handler(move |listeners, _| {
            let seen = seen_.clone();
            listeners.add("b", handler(move |_, e| seen.borrow_mut().push(*e)));
        }),
    );

    dispatch(&mut listeners, "a", &1);
    dispatch(&mut listeners, "b", &2);

    assert_eq!(*seen.borrow(), vec![2]);
}

#[test]
fn registering_for_the_dispatching_label_parks_until_dispatch_is_done() {
    let mut listeners = ScopedEventListeners::<Handler>::new();
    let seen = Rc::new(RefCell::new(Vec::new()));
    let registered = Rc::new(RefCell::new(false));

    let seen_ = seen.clone();
    listeners.add(
        "a",
        handler(move |listeners, _| {
            if std::mem::replace(&mut *registered.borrow_mut(), true) {
                return;
            }
            let seen = seen_.clone();
            listeners.add("a", handler(move |_, e| seen.borrow_mut().push(*e)));
        }),
    );

    dispatch(&mut listeners, "a", &1);
    // the handler registered mid-dispatch must not run for the event that spawned it
    assert!(seen.borrow().is_empty());

    dispatch(&mut listeners, "a", &2);
    assert_eq!(*seen.borrow(), vec![2]);
}

#[test]
fn remove_during_dispatch_is_not_undone_by_it() {
    let mut listeners = ScopedEventListeners::<Handler>::new();
    let count = Rc::new(RefCell::new(0));

    let count_ = count.clone();
    listeners.add(
        "a",
        handler(move |listeners, _| {
            *count_.borrow_mut() += 1;
            listeners.remove("a");
        }),
    );

    dispatch(&mut listeners, "a", &1);
    dispatch(&mut listeners, "a", &2);
    assert_eq!(*count.borrow(), 1);
}

#[test]
fn dispatch_of_an_unknown_label_runs_nothing() {
    let mut listeners = ScopedEventListeners::<Handler>::new();
    let handlers = listeners.begin_dispatch("nobody");
    assert!(handlers.is_empty());
    assert!(!listeners.is_dispatching("nobody"));
    listeners.end_dispatch("nobody", handlers);
}

#[test]
fn a_label_is_dispatching_between_begin_and_end() {
    let mut listeners = ScopedEventListeners::<Handler>::new();
    listeners.add("a", handler(|_, _| {}));
    let handlers = listeners.begin_dispatch("a");
    assert_eq!(handlers.len(), 1);
    assert!(listeners.is_dispatching("a"));
    assert!(!listeners.is_dispatching("b"));
    listeners.end_dispatch("a", handlers);
    assert!(!listeners.is_dispatching("a"));
}
