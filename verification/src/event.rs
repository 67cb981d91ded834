//! Events: names, targets, emitted payloads, and the JavaScript that registers and dispatches
//! frontend listeners.

use vstd::prelude::*;

use crate::error::Error;
use crate::text::{chars_of, concat_all, decimal, str_eq, u64_to_decimal};

verus! {

/// Unique id of an event listener.
pub type EventId = u32;

/// `char::is_alphanumeric` (Unicode alphabetic or numeric).
pub uninterp spec fn unicode_alphanumeric(c: char) -> bool;

/// Whether `c` is an ASCII letter or digit.
pub open spec fn ascii_alphanumeric(c: char) -> bool {
    ('a' <= c && c <= 'z') || ('A' <= c && c <= 'Z') || ('0' <= c && c <= '9')
}

/// `char::is_alphanumeric`. What is claimed of it: its answer is the Unicode property, which
/// every ASCII letter and digit has.
#[verifier::external_body]
fn is_alphanumeric(c: char) -> (r: bool)
    ensures
        r == unicode_alphanumeric(c),
        ascii_alphanumeric(c) ==> r,
{
    c.is_alphanumeric()
}

/// Whether a character may appear in an event name: alphanumeric (ASCII letters and digits among
/// them), `-`, `/`, `:` or `_`.
pub open spec fn event_name_char(c: char) -> bool {
    ascii_alphanumeric(c) || unicode_alphanumeric(c) || c == '-' || c == '/' || c == ':' || c == '_'
}

/// Whether every character of `s` may appear in an event name.
pub open spec fn valid_event_name(s: Seq<char>) -> bool {
    forall|i: int| 0 <= i < s.len() ==> event_name_char(#[trigger] s[i])
}

/// A checked event name.
#[derive(Clone, Debug, PartialEq, Eq)]
pub struct EventName(String);

impl View for EventName {
    type V = Seq<char>;

    closed spec fn view(&self) -> Seq<char> {
        self.0@
    }
}

impl EventName {
    /// Checks `s`: fails with [`Error::IllegalEventName`] exactly when it holds a character other
    /// than alphanumerics, `-`, `/`, `:` and `_`.
    pub fn new(s: &str) -> (r: Result<EventName, Error>)
        ensures
            r is Ok <==> valid_event_name(s@),
            r matches Ok(n) ==> n@ == s@,
            r matches Err(e) ==> e == Error::IllegalEventName(e->IllegalEventName_0) && e->IllegalEventName_0@ == s@,
    {
        let cs = chars_of(s);
        let mut i: usize = 0;
        while i < cs.len()
            invariant
                cs@ == s@,
                i <= cs@.len(),
                forall|j: int| 0 <= j < i ==> event_name_char(#[trigger] s@[j]),
            decreases cs@.len() - i,
        {
            let c = cs[i];
            if !(is_alphanumeric(c) || c == '-' || c == '/' || c == ':' || c == '_') {
                return Err(Error::IllegalEventName(String::from_str(s)));
            }
            i += 1;
        }
        Ok(EventName(String::from_str(s)))
    }

    /// The name.
    pub fn as_str(&self) -> (r: &str)
        ensures
            r@ == self@,
    {
        self.0.as_str()
    }
}

/// The target of an event.
#[derive(Clone, Debug, PartialEq, Eq, Hash)]
pub enum EventTarget {
    /// Any and all event targets.
    Any,
    /// Any window, webview or webview window with this label.
    AnyLabel { label: String },
    /// The app.
    App,
    /// A window.
    Window { label: String },
    /// A webview.
    Webview { label: String },
    /// A webview window.
    WebviewWindow { label: String },
}

/// The model of an [`EventTarget`].
pub enum TargetModel {
    Any,
    AnyLabel(Seq<char>),
    App,
    Window(Seq<char>),
    Webview(Seq<char>),
    WebviewWindow(Seq<char>),
}

impl View for EventTarget {
    type V = TargetModel;

    open spec fn view(&self) -> TargetModel {
        match self {
            EventTarget::Any => TargetModel::Any,
            EventTarget::AnyLabel { label } => TargetModel::AnyLabel(label@),
            EventTarget::App => TargetModel::App,
            EventTarget::Window { label } => TargetModel::Window(label@),
            EventTarget::Webview { label } => TargetModel::Webview(label@),
            EventTarget::WebviewWindow { label } => TargetModel::WebviewWindow(label@),
        }
    }
}

impl EventTarget {
    /// The [`EventTarget::Any`] target.
    pub fn any() -> (r: Self)
        ensures
            r@ == TargetModel::Any,
    {
        EventTarget::Any
    }

    /// The [`EventTarget::App`] target.
    pub fn app() -> (r: Self)
        ensures
            r@ == TargetModel::App,
    {
        EventTarget::App
    }

    /// The [`EventTarget::AnyLabel`] target.
    pub fn labeled(label: &str) -> (r: Self)
        ensures
            r@ == TargetModel::AnyLabel(label@),
    {
        EventTarget::AnyLabel { label: String::from_str(label) }
    }

    /// The [`EventTarget::Window`] target.
    pub fn window(label: &str) -> (r: Self)
        ensures
            r@ == TargetModel::Window(label@),
    {
        EventTarget::Window { label: String::from_str(label) }
    }

    /// The [`EventTarget::Webview`] target.
    pub fn webview(label: &str) -> (r: Self)
        ensures
            r@ == TargetModel::Webview(label@),
    {
        EventTarget::Webview { label: String::from_str(label) }
    }

    /// The [`EventTarget::WebviewWindow`] target.
    pub fn webview_window(label: &str) -> (r: Self)
        ensures
            r@ == TargetModel::WebviewWindow(label@),
    {
        EventTarget::WebviewWindow { label: String::from_str(label) }
    }

    /// Any target with this label (`FromStr`, which never fails).
    pub fn from_str(s: &str) -> (r: Result<Self, core::convert::Infallible>)
        ensures
            r matches Ok(t) && t@ == TargetModel::AnyLabel(s@),
    {
        Ok(EventTarget::AnyLabel { label: String::from_str(s) })
    }

    /// A copy of this target.
    pub fn duplicate(&self) -> (r: Self)
        ensures
            r@ == self@,
    {
        match self {
            EventTarget::Any => EventTarget::Any,
            EventTarget::AnyLabel { label } => EventTarget::AnyLabel { label: label.clone() },
            EventTarget::App => EventTarget::App,
            EventTarget::Window { label } => EventTarget::Window { label: label.clone() },
            EventTarget::Webview { label } => EventTarget::Webview { label: label.clone() },
            EventTarget::WebviewWindow { label } => EventTarget::WebviewWindow { label: label.clone() },
        }
    }
}

impl std::str::FromStr for EventTarget {
    type Err = core::convert::Infallible;

    fn from_str(s: &str) -> Result<Self, core::convert::Infallible> {
        EventTarget::from_str(s)
    }
}

impl From<&str> for EventTarget {
    /// Any target with this label.
    fn from(value: &str) -> (r: Self)
        ensures
            r@ == TargetModel::AnyLabel(value@),
    {
        EventTarget::AnyLabel { label: String::from_str(value) }
    }
}

/// The conversion's result is stated on `from` itself, over the target's view: two strings of
/// the same text are not known to be one value, so no spec value is claimed equal to it.
impl vstd::std_specs::convert::FromSpecImpl<&str> for EventTarget {
    open spec fn obeys_from_spec() -> bool {
        false
    }

    open spec fn from_spec(v: &str) -> Self {
        EventTarget::Any
    }
}

impl From<String> for EventTarget {
    /// Any target with this label.
    fn from(value: String) -> (r: Self)
        ensures
            r == (EventTarget::AnyLabel { label: value }),
    {
        EventTarget::AnyLabel { label: value }
    }
}

impl vstd::std_specs::convert::FromSpecImpl<String> for EventTarget {
    open spec fn obeys_from_spec() -> bool {
        true
    }

    open spec fn from_spec(v: String) -> Self {
        EventTarget::AnyLabel { label: v }
    }
}

/// Whether a listener registered for `listener` receives an event emitted to `emitted`.
///
/// A listener for any target receives everything, and so does every listener of an event emitted
/// to any target. An event for a label reaches the window, webview, webview window and labeled
/// listeners with that label; one for a window, webview or webview window reaches the listeners of
/// that kind and the labeled listeners with that label; one for the app reaches the app listeners.
pub open spec fn delivers_to(emitted: TargetModel, listener: TargetModel) -> bool {
    match listener {
        TargetModel::Any => true,
        _ => match emitted {
            TargetModel::Any => true,
            TargetModel::AnyLabel(l) => match listener {
                TargetModel::Window(x) => x == l,
                TargetModel::Webview(x) => x == l,
                TargetModel::WebviewWindow(x) => x == l,
                TargetModel::AnyLabel(x) => x == l,
                _ => false,
            },
            TargetModel::Window(l) => match listener {
                TargetModel::AnyLabel(x) => x == l,
                TargetModel::Window(x) => x == l,
                _ => false,
            },
            TargetModel::Webview(l) => match listener {
                TargetModel::AnyLabel(x) => x == l,
                TargetModel::Webview(x) => x == l,
                _ => false,
            },
            TargetModel::WebviewWindow(l) => match listener {
                TargetModel::AnyLabel(x) => x == l,
                TargetModel::WebviewWindow(x) => x == l,
                _ => false,
            },
            TargetModel::App => listener is App,
        },
    }
}

/// The label of a target, for the targets that have one.
pub open spec fn label_of(t: TargetModel) -> Option<Seq<char>> {
    match t {
        TargetModel::AnyLabel(l) => Some(l),
        TargetModel::Window(l) => Some(l),
        TargetModel::Webview(l) => Some(l),
        TargetModel::WebviewWindow(l) => Some(l),
        _ => None,
    }
}

/// Where an emitted event goes: a listener for `Any`, and any listener of an event emitted to
/// `Any`, receive it; an event emitted to a window, webview or webview window reaches the
/// listeners of that very target and those of any target with its label, and no other; an event
/// emitted to any target with a label reaches every listener with that label; an event emitted
/// to the app reaches the app's listeners. In particular every target receives what is emitted to
/// it.
pub proof fn lemma_delivery_rules(emitted: TargetModel, listener: TargetModel)
    ensures
        listener is Any ==> delivers_to(emitted, listener),
        emitted is Any ==> delivers_to(emitted, listener),
        delivers_to(emitted, emitted),
        (emitted is Window || emitted is Webview || emitted is WebviewWindow) && !(listener is Any) ==> (
            delivers_to(emitted, listener) <==> listener == emitted || listener == TargetModel::AnyLabel(label_of(emitted)->Some_0)),
        emitted is AnyLabel && !(listener is Any) ==> (delivers_to(emitted, listener) <==> label_of(listener) == label_of(emitted)),
        emitted is App && !(listener is Any) ==> (delivers_to(emitted, listener) <==> listener is App),
{
}

/// Whether a listener registered for `listener` receives an event emitted to `emitted`.
pub fn delivers(emitted: &EventTarget, listener: &EventTarget) -> (r: bool)
    ensures
        r == delivers_to(emitted@, listener@),
{
    match listener {
        EventTarget::Any => true,
        _ => match emitted {
            EventTarget::Any => true,
            EventTarget::AnyLabel { label: l } => match listener {
                EventTarget::Window { label } => str_eq(label.as_str(), l.as_str()),
                EventTarget::Webview { label } => str_eq(label.as_str(), l.as_str()),
                EventTarget::WebviewWindow { label } => str_eq(label.as_str(), l.as_str()),
                EventTarget::AnyLabel { label } => str_eq(label.as_str(), l.as_str()),
                _ => false,
            },
            EventTarget::Window { label: l } => match listener {
                EventTarget::AnyLabel { label } => str_eq(label.as_str(), l.as_str()),
                EventTarget::Window { label } => str_eq(label.as_str(), l.as_str()),
                _ => false,
            },
            EventTarget::Webview { label: l } => match listener {
                EventTarget::AnyLabel { label } => str_eq(label.as_str(), l.as_str()),
                EventTarget::Webview { label } => str_eq(label.as_str(), l.as_str()),
                _ => false,
            },
            EventTarget::WebviewWindow { label: l } => match listener {
                EventTarget::AnyLabel { label } => str_eq(label.as_str(), l.as_str()),
                EventTarget::WebviewWindow { label } => str_eq(label.as_str(), l.as_str()),
                _ => false,
            },
            EventTarget::App => match listener {
                EventTarget::App => true,
                _ => false,
            },
        },
    }
}

/// Whether a listener for `listener` receives the event under an optional emit target (none
/// meaning that the event goes to every listener).
pub open spec fn receives(filter: Option<TargetModel>, listener: TargetModel) -> bool {
    match filter {
        None => true,
        Some(emitted) => delivers_to(emitted, listener),
    }
}

/// Serialized emit arguments: the event name and its JSON payload.
#[derive(Clone, Debug, PartialEq, Eq)]
pub struct EmitArgs {
    event: EventName,
    payload: String,
}

impl EmitArgs {
    /// The event name.
    pub closed spec fn event_name(&self) -> Seq<char> {
        self.event@
    }

    /// The serialized payload.
    pub closed spec fn payload_text(&self) -> Seq<char> {
        self.payload@
    }

    /// Emit arguments with an already serialized payload.
    pub fn new_str(event: EventName, payload: String) -> (r: Result<EmitArgs, Error>)
        ensures
            r matches Ok(a) && a.event_name() == event@ && a.payload_text() == payload@,
    {
        Ok(EmitArgs { event, payload })
    }

    /// The event name.
    pub fn event(&self) -> (r: &str)
        ensures
            r@ == self.event_name(),
    {
        self.event.as_str()
    }

    /// The serialized payload.
    pub fn payload(&self) -> (r: &str)
        ensures
            r@ == self.payload_text(),
    {
        self.payload.as_str()
    }
}

/// An event that was emitted, as a listener receives it.
#[derive(Clone, Debug, PartialEq, Eq)]
pub struct Event {
    id: EventId,
    data: String,
}

impl Event {
    /// The event delivered to the listener `id` with the payload `data`.
    pub fn new(id: EventId, data: String) -> (r: Event)
        ensures
            r.listener_id() == id,
            r.payload_text() == data@,
    {
        Event { id, data }
    }

    /// The listener id.
    pub closed spec fn listener_id(&self) -> EventId {
        self.id
    }

    /// The payload.
    pub closed spec fn payload_text(&self) -> Seq<char> {
        self.data@
    }

    /// The id of the listener that was triggered.
    pub fn id(&self) -> (r: EventId)
        ensures
            r == self.listener_id(),
    {
        self.id
    }

    /// The event payload.
    pub fn payload(&self) -> (r: &str)
        ensures
            r@ == self.payload_text(),
    {
        self.data.as_str()
    }
}

/// The concatenation of `pieces`.
pub fn join_pieces(pieces: &Vec<&str>) -> (r: String)
    ensures
        r@ == concat_all(pieces@.map_values(|p: &str| p@)),
{
    let mut r = String::new();
    let mut i: usize = 0;
    while i < pieces.len()
        invariant
            i <= pieces@.len(),
            r@ == concat_all(pieces@.take(i as int).map_values(|p: &str| p@)),
        decreases pieces@.len() - i,
    {
        let ghost before = r@;
        r.append(pieces[i]);
        assert(pieces@.take(i + 1).map_values(|p: &str| p@).drop_last() =~= pieces@.take(i as int).map_values(|p: &str| p@));
        i += 1;
    }
    assert(pieces@.take(pieces@.len() as int) =~= pieces@);
    r
}

/// The text of [`listen_js_script`].
pub open spec fn listen_js_text(listeners_object_name: Seq<char>, serialized_target: Seq<char>, event: Seq<char>, event_id: Seq<char>, handler: Seq<char>) -> Seq<char> {
    concat_all(seq![
        "(function () {\n      if (window['"@,
        listeners_object_name,
        "'] === void 0) {\n        Object.defineProperty(window, '"@,
        listeners_object_name,
        "', { value: Object.create(null) });\n      }\n      if (window['"@,
        listeners_object_name,
        "']['"@,
        event,
        "'] === void 0) {\n        Object.defineProperty(window['"@,
        listeners_object_name,
        "'], '"@,
        event,
        "', { value: Object.create(null) });\n      }\n      const eventListeners = window['"@,
        listeners_object_name,
        "']['"@,
        event,
        "']\n      const listener = {\n        target: "@,
        serialized_target,
        ",\n        handler: "@,
        handler,
        "\n      };\n      Object.defineProperty(eventListeners, '"@,
        event_id,
        "', { value: listener, configurable: true });\n    })()\n  "@,
    ])
}

/// The JavaScript that registers the frontend listener `event_id` of `event`, with its serialized
/// target and its handler (a JavaScript function), in the object named `listeners_object_name`.
pub fn listen_js_script(listeners_object_name: &str, serialized_target: &str, event: &EventName, event_id: EventId, handler: &str) -> (r: String)
    ensures
        r@ == listen_js_text(listeners_object_name@, serialized_target@, event@, decimal(event_id as nat), handler@),
{
    let id = u64_to_decimal(event_id as u64);
    let pieces: Vec<&str> = vec![
        "(function () {\n      if (window['",
        listeners_object_name,
        "'] === void 0) {\n        Object.defineProperty(window, '",
        listeners_object_name,
        "', { value: Object.create(null) });\n      }\n      if (window['",
        listeners_object_name,
        "']['",
        event.as_str(),
        "'] === void 0) {\n        Object.defineProperty(window['",
        listeners_object_name,
        "'], '",
        event.as_str(),
        "', { value: Object.create(null) });\n      }\n      const eventListeners = window['",
        listeners_object_name,
        "']['",
        event.as_str(),
        "']\n      const listener = {\n        target: ",
        serialized_target,
        ",\n        handler: ",
        handler,
        "\n      };\n      Object.defineProperty(eventListeners, '",
        id.as_str(),
        "', { value: listener, configurable: true });\n    })()\n  ",
    ];
    let r = join_pieces(&pieces);
    assert(pieces@.map_values(|p: &str| p@) =~= seq![
        "(function () {\n      if (window['"@,
        listeners_object_name@,
        "'] === void 0) {\n        Object.defineProperty(window, '"@,
        listeners_object_name@,
        "', { value: Object.create(null) });\n      }\n      if (window['"@,
        listeners_object_name@,
        "']['"@,
        event@,
        "'] === void 0) {\n        Object.defineProperty(window['"@,
        listeners_object_name@,
        "'], '"@,
        event@,
        "', { value: Object.create(null) });\n      }\n      const eventListeners = window['"@,
        listeners_object_name@,
        "']['"@,
        event@,
        "']\n      const listener = {\n        target: "@,
        serialized_target@,
        ",\n        handler: "@,
        handler@,
        "\n      };\n      Object.defineProperty(eventListeners, '"@,
        id@,
        "', { value: listener, configurable: true });\n    })()\n  "@,
    ]);
    r
}

/// The text of [`unlisten_js_script`].
pub open spec fn unlisten_js_text(listeners_object_name: Seq<char>, event_name: Seq<char>, event_id: Seq<char>) -> Seq<char> {
    concat_all(seq![
        "(function () {\n        const listeners = (window['"@,
        listeners_object_name,
        "'] || {})['"@,
        event_name,
        "']\n        if (listeners) {\n          delete window['"@,
        listeners_object_name,
        "']['"@,
        event_name,
        "']["@,
        event_id,
        "];\n        }\n      })()\n    "@,
    ])
}

/// The JavaScript that removes the frontend listener `event_id` of `event_name` from the object
/// named `listeners_object_name`.
pub fn unlisten_js_script(listeners_object_name: &str, event_name: &EventName, event_id: EventId) -> (r: String)
    ensures
        r@ == unlisten_js_text(listeners_object_name@, event_name@, decimal(event_id as nat)),
{
    let id = u64_to_decimal(event_id as u64);
    let pieces: Vec<&str> = vec![
        "(function () {\n        const listeners = (window['",
        listeners_object_name,
        "'] || {})['",
        event_name.as_str(),
        "']\n        if (listeners) {\n          delete window['",
        listeners_object_name,
        "']['",
        event_name.as_str(),
        "'][",
        id.as_str(),
        "];\n        }\n      })()\n    ",
    ];
    let r = join_pieces(&pieces);
    assert(pieces@.map_values(|p: &str| p@) =~= seq![
        "(function () {\n        const listeners = (window['"@,
        listeners_object_name@,
        "'] || {})['"@,
        event_name@,
        "']\n        if (listeners) {\n          delete window['"@,
        listeners_object_name@,
        "']['"@,
        event_name@,
        "']["@,
        id@,
        "];\n        }\n      })()\n    "@,
    ]);
    r
}

/// The text of [`event_initialization_script`].
pub open spec fn event_initialization_text(function: Seq<char>, listeners: Seq<char>) -> Seq<char> {
    concat_all(seq![
        "Object.defineProperty(window, '"@,
        function,
        "', {\n      value: function (eventData, ids) {\n        const listeners = (window['"@,
        listeners,
        "'] && window['"@,
        listeners,
        "'][eventData.event]) || []\n        for (const id of ids) {\n          const listener = listeners[id]\n          if (listener && listener.handler) {\n            eventData.id = id\n            listener.handler(eventData)\n          }\n        }\n      }\n    });\n  "@,
    ])
}

/// The JavaScript that defines the function named `function`, which runs the frontend listeners
/// (held in the object named `listeners`) with the given ids for an event.
pub fn event_initialization_script(function: &str, listeners: &str) -> (r: String)
    ensures
        r@ == event_initialization_text(function@, listeners@),
{
    let pieces: Vec<&str> = vec![
        "Object.defineProperty(window, '",
        function,
        "', {\n      value: function (eventData, ids) {\n        const listeners = (window['",
        listeners,
        "'] && window['",
        listeners,
        "'][eventData.event]) || []\n        for (const id of ids) {\n          const listener = listeners[id]\n          if (listener && listener.handler) {\n            eventData.id = id\n            listener.handler(eventData)\n          }\n        }\n      }\n    });\n  ",
    ];
    let r = join_pieces(&pieces);
    assert(pieces@.map_values(|p: &str| p@) =~= seq![
        "Object.defineProperty(window, '"@,
        function@,
        "', {\n      value: function (eventData, ids) {\n        const listeners = (window['"@,
        listeners@,
        "'] && window['"@,
        listeners@,
        "'][eventData.event]) || []\n        for (const id of ids) {\n          const listener = listeners[id]\n          if (listener && listener.handler) {\n            eventData.id = id\n            listener.handler(eventData)\n          }\n        }\n      }\n    });\n  "@,
    ]);
    r
}

/// The text of [`emit_js_script`].
pub open spec fn emit_js_text(event_emit_function_name: Seq<char>, event: Seq<char>, payload: Seq<char>, ids: Seq<char>) -> Seq<char> {
    concat_all(seq![
        "(function () { const fn = window['"@,
        event_emit_function_name,
        "']; fn && fn({event: '"@,
        event,
        "', payload: "@,
        payload,
        "}, "@,
        ids,
        ") })()"@,
    ])
}

/// The JavaScript that runs, in a webview, the frontend listeners with the given ids (serialized as
/// a JavaScript array) for an emitted event, through the function named
/// `event_emit_function_name`.
pub fn emit_js_script(event_emit_function_name: &str, emit_args: &EmitArgs, serialized_ids: &str) -> (r: Result<String, Error>)
    ensures
        r matches Ok(s) && s@ == emit_js_text(event_emit_function_name@, emit_args.event_name(), emit_args.payload_text(), serialized_ids@),
{
    let pieces: Vec<&str> = vec![
        "(function () { const fn = window['",
        event_emit_function_name,
        "']; fn && fn({event: '",
        emit_args.event(),
        "', payload: ",
        emit_args.payload(),
        "}, ",
        serialized_ids,
        ") })()",
    ];
    let r = join_pieces(&pieces);
    assert(pieces@.map_values(|p: &str| p@) =~= seq![
        "(function () { const fn = window['"@,
        event_emit_function_name@,
        "']; fn && fn({event: '"@,
        emit_args.event_name(),
        "', payload: "@,
        emit_args.payload_text(),
        "}, "@,
        serialized_ids@,
        ") })()"@,
    ]);
    Ok(r)
}

} // verus!
