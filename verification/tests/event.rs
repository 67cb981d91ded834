use tauri_core::error::Error;
use tauri_core::event::{
    delivers, emit_js_script, event_initialization_script, listen_js_script, unlisten_js_script, EmitArgs, Event, EventName,
    EventTarget,
};

#[test]
fn test_illegal_event_name() {
    let s = EventName::new("some\r illegal event name").unwrap_err().to_string();
    assert_eq!("only alphanumeric, '-', '/', ':', '_' permitted for event names: \"some\\r illegal event name\"", s);
}

#[test]
fn legal_event_names_are_accepted() {
    for name in ["tauri://focus", "my-event", "a_b:c/d", "événement"] {
        let n = EventName::new(name).unwrap();
        assert_eq!(n.as_str(), name);
    }
    assert!(matches!(EventName::new("with space"), Err(Error::IllegalEventName(n)) if n == "with space"));
}

#[test]
fn targets_and_their_constructors() {
    assert_eq!(EventTarget::any(), EventTarget::Any);
    assert_eq!(EventTarget::app(), EventTarget::App);
    assert_eq!(EventTarget::labeled("x"), EventTarget::AnyLabel { label: "x".into() });
    assert_eq!(EventTarget::window("x"), EventTarget::Window { label: "x".into() });
    assert_eq!(EventTarget::webview("x"), EventTarget::Webview { label: "x".into() });
    assert_eq!(EventTarget::webview_window("x"), EventTarget::WebviewWindow { label: "x".into() });
    assert_eq!(EventTarget::from_str("main"), Ok(EventTarget::AnyLabel { label: "main".into() }));
    assert_eq!(EventTarget::from("main"), EventTarget::labeled("main"));
    assert_eq!(EventTarget::from("main".to_string()), EventTarget::labeled("main"));
    assert_eq!("main".parse::<EventTarget>(), Ok(EventTarget::labeled("main")));
}

#[test]
fn emit_to_filters() {
    let main_window = EventTarget::window("main");
    // a listener for any target receives everything
    assert!(delivers(&EventTarget::app(), &EventTarget::any()));
    // an event for a label reaches every kind with that label
    assert!(delivers(&EventTarget::labeled("main"), &main_window));
    assert!(delivers(&EventTarget::labeled("main"), &EventTarget::webview("main")));
    assert!(!delivers(&EventTarget::labeled("main"), &EventTarget::window("other")));
    // an event for a window reaches windows and labeled listeners of that label only
    assert!(delivers(&main_window, &EventTarget::labeled("main")));
    assert!(!delivers(&main_window, &EventTarget::webview("main")));
    // an event for the app reaches app listeners only
    assert!(delivers(&EventTarget::app(), &EventTarget::app()));
    assert!(!delivers(&EventTarget::app(), &main_window));
}

#[test]
fn emit_args_and_events() {
    let args = EmitArgs::new_str(EventName::new("ev").unwrap(), "{\"a\":1}".to_string()).unwrap();
    assert_eq!(args.event(), "ev");
    assert_eq!(args.payload(), "{\"a\":1}");
    let e = Event::new(7, "payload".to_string());
    assert_eq!(e.id(), 7);
    assert_eq!(e.payload(), "payload");
}

#[test]
fn listen_script_text() {
    let js = listen_js_script("LISTENERS", "{\"kind\":\"Any\"}", &EventName::new("my-event").unwrap(), 42, "(e) => {}");
    let expected = "(function () {
      if (window['LISTENERS'] === void 0) {
        Object.defineProperty(window, 'LISTENERS', { value: Object.create(null) });
      }
      if (window['LISTENERS']['my-event'] === void 0) {
        Object.defineProperty(window['LISTENERS'], 'my-event', { value: Object.create(null) });
      }
      const eventListeners = window['LISTENERS']['my-event']
      const listener = {
        target: {\"kind\":\"Any\"},
        handler: (e) => {}
      };
      Object.defineProperty(eventListeners, '42', { value: listener, configurable: true });
    })()
  ";
    assert_eq!(js, expected);
}

#[test]
fn emit_script_text() {
    let args = EmitArgs::new_str(EventName::new("ev").unwrap(), "{\"a\":1}".to_string()).unwrap();
    let js = emit_js_script("FN", &args, "[1,2]").unwrap();
    assert_eq!(js, "(function () { const fn = window['FN']; fn && fn({event: 'ev', payload: {\"a\":1}}, [1,2]) })()");
}

#[test]
fn unlisten_script_text() {
    let js = unlisten_js_script("LISTENERS", &EventName::new("ev").unwrap(), 3);
    let expected = "(function () {
        const listeners = (window['LISTENERS'] || {})['ev']
        if (listeners) {
          delete window['LISTENERS']['ev'][3];
        }
      })()
    ";
    assert_eq!(js, expected);
}

#[test]
fn initialization_script_names_the_function_and_listeners() {
    let js = event_initialization_script("FN", "LISTENERS");
    assert!(js.starts_with("Object.defineProperty(window, 'FN', {\n"));
    assert!(js.contains("const listeners = (window['LISTENERS'] && window['LISTENERS'][eventData.event]) || []"));
    assert!(js.ends_with("    });\n  "));
}
