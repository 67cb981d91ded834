//! A self-contained event manager: the listeners of each event, the frontend (JavaScript)
//! listeners of each webview, and the actions deferred while an emit runs its listeners.
//!
//! Listeners are values of any type `H` (usually callbacks). Running them is the caller's part:
//! [`Listeners::begin_emit`] says which listeners an event reaches, the caller runs them (they may
//! call back into the manager: a registration, removal or emit made meanwhile is deferred), and
//! [`Listeners::end_emit`] hands back the deferred actions, in the order they were made, for the
//! caller to apply.

use vstd::prelude::*;

use crate::event::{delivers, receives, EmitArgs, Event, EventId, EventTarget, TargetModel};
use crate::text::{str_eq, to_owned_string};

verus! {

/// A registered listener.
pub struct ListenerEntry<H> {
    event: String,
    id: EventId,
    target: EventTarget,
    handler: H,
}

/// The model of a registered listener: its event name, id, target and handler.
pub type ListenerModel<H> = (Seq<char>, EventId, TargetModel, H);

/// The model of a registered listener.
pub open spec fn entry_model<H>(e: ListenerEntry<H>) -> ListenerModel<H> {
    (e.event_name(), e.listener_id(), e.target_model(), e.handler_value())
}

impl<H> ListenerEntry<H> {
    pub closed spec fn event_name(&self) -> Seq<char> {
        self.event@
    }

    pub closed spec fn listener_id(&self) -> EventId {
        self.id
    }

    pub closed spec fn target_model(&self) -> TargetModel {
        self.target@
    }

    pub closed spec fn handler_value(&self) -> H {
        self.handler
    }
}

/// An action deferred because the listeners were running.
pub enum Pending<H> {
    /// Remove the listener with this id.
    Unlisten(EventId),
    /// Register a listener.
    Listen { id: EventId, event: String, target: EventTarget, handler: H },
    /// Emit an event to the listeners of its name that `filter` lets through (`None`: all).
    Emit { args: EmitArgs, filter: Option<EventTarget> },
    /// Emit an event to the listeners of its name that the `slot`-th filter predicate deferred
    /// since the last [`Listeners::end_emit`] (counting from 0) lets through; the caller keeps
    /// the predicates (see [`Listeners::begin_emit_with`]).
    EmitWith { args: EmitArgs, slot: usize },
}

/// How many emits with a filter predicate are among the deferred actions.
pub open spec fn deferred_predicates<H>(pending: Seq<Pending<H>>) -> nat
    decreases pending.len(),
{
    if pending.len() == 0 {
        0
    } else {
        deferred_predicates(pending.drop_last()) + if pending.last() is EmitWith { 1nat } else { 0nat }
    }
}

/// The ids of the listeners of `event` that receive an emit whose filter predicate answered
/// `answers[i]` for the `i`-th registered listener: those with the target `Any`, and those for
/// which it answered `true`; in registration order.
pub open spec fn chosen_ids<H>(registered: Seq<ListenerModel<H>>, event: Seq<char>, answers: Seq<bool>) -> Seq<EventId>
    decreases registered.len(),
{
    if registered.len() == 0 {
        Seq::empty()
    } else {
        let last = registered.last();
        let rest = chosen_ids(registered.drop_last(), event, answers);
        if last.0 == event && (last.2 is Any || answers[registered.len() - 1]) {
            rest.push(last.1)
        } else {
            rest
        }
    }
}

/// The model of an owned optional target.
pub open spec fn owned_filter_model(filter: Option<EventTarget>) -> Option<TargetModel> {
    match filter {
        Some(t) => Some(t@),
        None => None,
    }
}

/// A frontend listener: a webview listens to an event, for a target, under an id.
#[derive(Clone, Debug, PartialEq, Eq)]
pub struct JsListener {
    pub webview: String,
    pub event: String,
    pub target: EventTarget,
    pub id: EventId,
}

/// The model of a frontend listener: webview label, event name, target and id.
pub type JsModel = (Seq<char>, Seq<char>, TargetModel, EventId);

/// The model of a frontend listener.
pub open spec fn js_key(l: JsListener) -> JsModel {
    (l.webview@, l.event@, l.target@, l.id)
}

impl JsListener {
    /// A copy of this listener.
    pub fn duplicate(&self) -> (r: Self)
        ensures
            js_key(r) == js_key(*self),
    {
        JsListener { webview: self.webview.clone(), event: self.event.clone(), target: self.target.duplicate(), id: self.id }
    }
}

/// What an emit does.
pub enum EmitPlan {
    /// The listeners were running: the emit is deferred until they are done.
    Deferred,
    /// No listener receives the event.
    NoListener,
    /// Run the listeners with these ids (each with its own [`crate::event::Event`]), then call
    /// [`Listeners::end_emit`].
    Run(Vec<EventId>),
}

/// What an emit with a filter predicate should do.
#[derive(Clone, Debug, PartialEq, Eq)]
pub enum EmitPlanWith {
    /// The listeners are running: the emit is deferred, its predicate to be kept under this
    /// number.
    Deferred(usize),
    /// No listener receives the event.
    NoListener,
    /// Run the listeners with these ids, then call [`Listeners::end_emit`].
    Run(Vec<EventId>),
}

/// The answers given for the listeners before position `n` are all that decide who is chosen
/// among them.
pub proof fn lemma_chosen_ids_prefix<H>(registered: Seq<ListenerModel<H>>, event: Seq<char>, a: Seq<bool>, b: Seq<bool>)
    requires
        a.len() >= registered.len(),
        b.len() >= registered.len(),
        forall|j: int| 0 <= j < registered.len() ==> a[j] == b[j],
    ensures
        chosen_ids(registered, event, a) == chosen_ids(registered, event, b),
    decreases registered.len(),
{
    if registered.len() > 0 {
        lemma_chosen_ids_prefix(registered.drop_last(), event, a, b);
    }
}

/// The events the listeners an emit runs get: for each id of the plan, in order, the event of that
/// listener's id with the emit's payload.
pub fn events_for(ids: &Vec<EventId>, payload: &str) -> (r: Vec<Event>)
    ensures
        r@.len() == ids@.len(),
        forall|i: int| 0 <= i < ids@.len() ==> (#[trigger] r@[i]).listener_id() == ids@[i] && r@[i].payload_text() == payload@,
{
    let mut r: Vec<Event> = Vec::new();
    let mut i: usize = 0;
    while i < ids.len()
        invariant
            i <= ids@.len(),
            r@.len() == i,
            forall|j: int| 0 <= j < i ==> (#[trigger] r@[j]).listener_id() == ids@[j] && r@[j].payload_text() == payload@,
        decreases ids@.len() - i,
    {
        r.push(Event::new(ids[i], String::from_str(payload)));
        i += 1;
    }
    r
}

/// The event manager.
pub struct Listeners<H> {
    handlers: Vec<ListenerEntry<H>>,
    pending: Vec<Pending<H>>,
    dispatching: bool,
    js_listeners: Vec<JsListener>,
    next_event_id: u32,
}

/// The ids of the listeners of `event` that receive an event emitted under `filter`, in
/// registration order.
pub open spec fn receiving_ids<H>(registered: Seq<ListenerModel<H>>, event: Seq<char>, filter: Option<TargetModel>) -> Seq<EventId>
    decreases registered.len(),
{
    if registered.len() == 0 {
        Seq::empty()
    } else {
        let last = registered.last();
        let rest = receiving_ids(registered.drop_last(), event, filter);
        if last.0 == event && receives(filter, last.2) {
            rest.push(last.1)
        } else {
            rest
        }
    }
}

/// Keeps the listeners whose id is not `id`.
pub open spec fn id_differs<H>(id: EventId) -> spec_fn(ListenerModel<H>) -> bool {
    |e: ListenerModel<H>| e.1 != id
}

/// Keeps the listeners that are not the one of event `event` and id `id`.
pub open spec fn event_id_differs<H>(event: Seq<char>, id: EventId) -> spec_fn(ListenerModel<H>) -> bool {
    |e: ListenerModel<H>| !(e.0 == event && e.1 == id)
}

/// The registered listeners without those of id `id`.
pub open spec fn without_id<H>(registered: Seq<ListenerModel<H>>, id: EventId) -> Seq<ListenerModel<H>> {
    registered.filter(id_differs(id))
}

/// The registered listeners without the one of event `event` and id `id`.
pub open spec fn without_event_id<H>(registered: Seq<ListenerModel<H>>, event: Seq<char>, id: EventId) -> Seq<ListenerModel<H>> {
    registered.filter(event_id_differs(event, id))
}

/// The registered listeners after registering `handler` under `id` for `event`: a listener of
/// the same event and id is replaced.
pub open spec fn with_listener<H>(
    registered: Seq<ListenerModel<H>>,
    event: Seq<char>,
    id: EventId,
    target: TargetModel,
    handler: H,
) -> Seq<ListenerModel<H>> {
    without_event_id(registered, event, id).push((event, id, target, handler))
}

/// The ids of the frontend listeners of `webview` for `event` that receive an event emitted
/// under `filter`, in registration order.
pub open spec fn js_receiving_ids(listeners: Seq<JsModel>, webview: Seq<char>, event: Seq<char>, filter: Option<TargetModel>) -> Seq<EventId>
    decreases listeners.len(),
{
    if listeners.len() == 0 {
        Seq::empty()
    } else {
        let last = listeners.last();
        let rest = js_receiving_ids(listeners.drop_last(), webview, event, filter);
        if last.0 == webview && last.1 == event && receives(filter, last.2) {
            rest.push(last.3)
        } else {
            rest
        }
    }
}

/// The frontend listeners after a webview listens: a listener already there is not added twice.
pub open spec fn js_with(listeners: Seq<JsModel>, l: JsModel) -> Seq<JsModel> {
    if listeners.contains(l) {
        listeners
    } else {
        listeners.push(l)
    }
}

/// Keeps the frontend listeners that are not of event `event` and id `id`.
pub open spec fn js_differs(event: Seq<char>, id: EventId) -> spec_fn(JsModel) -> bool {
    |l: JsModel| !(l.1 == event && l.3 == id)
}

/// Whether some frontend listener of `event` has a target accepted by `filter`.
pub open spec fn js_listened(listeners: Seq<JsModel>, event: Seq<char>, filter: Option<TargetModel>) -> bool {
    exists|i: int| 0 <= i < listeners.len() && (#[trigger] listeners[i]).1 == event && receives(filter, listeners[i].2)
}

/// Whether two targets are the same.
pub fn same_target(a: &EventTarget, b: &EventTarget) -> (r: bool)
    ensures
        r == (a@ == b@),
{
    match (a, b) {
        (EventTarget::Any, EventTarget::Any) => true,
        (EventTarget::App, EventTarget::App) => true,
        (EventTarget::AnyLabel { label: x }, EventTarget::AnyLabel { label: y }) => str_eq(x.as_str(), y.as_str()),
        (EventTarget::Window { label: x }, EventTarget::Window { label: y }) => str_eq(x.as_str(), y.as_str()),
        (EventTarget::Webview { label: x }, EventTarget::Webview { label: y }) => str_eq(x.as_str(), y.as_str()),
        (EventTarget::WebviewWindow { label: x }, EventTarget::WebviewWindow { label: y }) => str_eq(x.as_str(), y.as_str()),
        _ => false,
    }
}

/// The model of an optional target.
pub open spec fn filter_model(filter: Option<&EventTarget>) -> Option<TargetModel> {
    match filter {
        Some(t) => Some(t@),
        None => None,
    }
}

/// Whether a listener for `listener` receives an event emitted under `filter`.
fn receives_exec(filter: Option<&EventTarget>, listener: &EventTarget) -> (r: bool)
    ensures
        r == receives(filter_model(filter), listener@),
{
    match filter {
        None => true,
        Some(emitted) => delivers(emitted, listener),
    }
}

impl<H> Listeners<H> {
    /// The registered listeners, in registration order.
    pub closed spec fn registered(&self) -> Seq<ListenerModel<H>> {
        self.handlers@.map_values(|e: ListenerEntry<H>| entry_model(e))
    }

    /// The targets of the registered listeners, in registration order.
    pub closed spec fn targets(&self) -> Seq<EventTarget> {
        self.handlers@.map_values(|e: ListenerEntry<H>| e.target)
    }

    /// The targets are those of the registered listeners.
    pub proof fn lemma_targets_registered(&self)
        ensures
            self.targets().len() == self.registered().len(),
            forall|i: int| 0 <= i < self.targets().len() ==> (#[trigger] self.targets()[i])@ == self.registered()[i].2,
    {
    }

    /// The deferred actions, in the order they were made.
    pub closed spec fn pending_actions(&self) -> Seq<Pending<H>> {
        self.pending@
    }

    /// Whether the listeners of an emit are running.
    pub closed spec fn is_dispatching(&self) -> bool {
        self.dispatching
    }

    /// The frontend listeners, in registration order.
    pub closed spec fn js_registered(&self) -> Seq<JsModel> {
        self.js_listeners@.map_values(|l: JsListener| js_key(l))
    }

    /// The id the next listener gets.
    pub closed spec fn next_id(&self) -> EventId {
        self.next_event_id
    }

    /// No two listeners share an event name and an id, and no frontend listener is registered
    /// twice.
    pub open spec fn wf(&self) -> bool {
        &&& distinct_keys(self.registered())
        &&& self.js_registered().no_duplicates()
    }

    /// An empty manager.
    pub fn new() -> (r: Self)
        ensures
            r.wf(),
            r.registered().len() == 0,
            r.pending_actions().len() == 0,
            !r.is_dispatching(),
            r.js_registered().len() == 0,
            r.next_id() == 0,
    {
        let r = Listeners { handlers: Vec::new(), pending: Vec::new(), dispatching: false, js_listeners: Vec::new(), next_event_id: 0 };
        assert(r.js_registered() =~= Seq::empty());
        r
    }

    /// Hands out a fresh listener id: ids are handed out in increasing order, wrapping at the
    /// end of the `u32` range.
    pub fn next_event_id(&mut self) -> (r: EventId)
        ensures
            r == old(self).next_id(),
            final(self).next_id() == (if old(self).next_id() == u32::MAX { 0 } else { (old(self).next_id() + 1) as u32 }),
            final(self).registered() == old(self).registered(),
            final(self).pending_actions() == old(self).pending_actions(),
            final(self).is_dispatching() == old(self).is_dispatching(),
            final(self).js_registered() == old(self).js_registered(),
    {
        let id = self.next_event_id;
        self.next_event_id = if id == u32::MAX { 0 } else { id + 1 };
        id
    }

    /// The name of the JavaScript function that dispatches events to frontend listeners.
    pub fn function_name(&self) -> (r: &'static str)
        ensures
            r@ == "__internal_unstable_listeners_function_id__"@,
    {
        "__internal_unstable_listeners_function_id__"
    }

    /// The name of the JavaScript object that holds the frontend listeners.
    pub fn listeners_object_name(&self) -> (r: &'static str)
        ensures
            r@ == "__internal_unstable_listeners_object_id__"@,
    {
        "__internal_unstable_listeners_object_id__"
    }

    /// Queues a deferred action.
    fn insert_pending(&mut self, action: Pending<H>)
        ensures
            final(self).pending_actions() == old(self).pending_actions().push(action),
            final(self).registered() == old(self).registered(),
            final(self).targets() == old(self).targets(),
            final(self).is_dispatching() == old(self).is_dispatching(),
            final(self).js_registered() == old(self).js_registered(),
            final(self).next_id() == old(self).next_id(),
    {
        self.pending.push(action);
    }

    /// Removes the listeners of id `id` (of event `event` only, when given), keeping the others
    /// in order.
    fn remove_where(&mut self, event: Option<&str>, id: EventId)
        requires
            distinct_keys(old(self).registered()),
        ensures
            distinct_keys(final(self).registered()),
            event matches Some(e) ==> final(self).registered() == without_event_id(old(self).registered(), e@, id),
            event is None ==> final(self).registered() == without_id(old(self).registered(), id),
            final(self).pending_actions() == old(self).pending_actions(),
            final(self).is_dispatching() == old(self).is_dispatching(),
            final(self).js_registered() == old(self).js_registered(),
            final(self).next_id() == old(self).next_id(),
    {
        let ghost pred = match event {
            Some(e) => event_id_differs::<H>(e@, id),
            None => id_differs::<H>(id),
        };
        let ghost initial = self.handlers@;
        let ghost keys = self.registered();
        let mut rest: Vec<ListenerEntry<H>> = Vec::new();
        std::mem::swap(&mut rest, &mut self.handlers);
        let mut consumed: usize = 0;
        assert(rest@.len() == rest.len());
        proof {
            reveal(Seq::filter);
            assert(keys.take(0).filter(pred) =~= Seq::empty());
            assert(self.handlers@.map_values(|e: ListenerEntry<H>| entry_model(e)) =~= Seq::empty());
        }
        while rest.len() > 0
            invariant
                initial.len() == keys.len(),
                keys == initial.map_values(|e: ListenerEntry<H>| entry_model(e)),
                consumed <= initial.len(),
                initial.len() <= usize::MAX,
                rest@ == initial.skip(consumed as int),
                self.handlers@.map_values(|e: ListenerEntry<H>| entry_model(e)) == keys.take(consumed as int).filter(pred),
                pred == (match event {
                    Some(e) => event_id_differs::<H>(e@, id),
                    None => id_differs::<H>(id),
                }),
                self.pending == old(self).pending,
                self.dispatching == old(self).dispatching,
                self.js_listeners == old(self).js_listeners,
                self.next_event_id == old(self).next_event_id,
            decreases rest@.len(),
        {
            assert(rest@.len() == initial.len() - consumed);
            let entry = rest.remove(0);
            proof {
                assert(entry == initial[consumed as int]);
                assert(keys[consumed as int] == entry_model(entry));
            }
            let drop = match event {
                Some(e) => entry.id == id && str_eq(entry.event.as_str(), e),
                None => entry.id == id,
            };
            let ghost before = self.handlers@;
            let ghost prev = keys.take(consumed as int);
            assert(keys.take(consumed + 1) =~= prev.push(keys[consumed as int]));
            assert(keys.take(consumed + 1).drop_last() =~= prev);
            if !drop {
                self.handlers.push(entry);
                proof {
                    reveal(Seq::filter);
                    assert(self.handlers@.map_values(|e: ListenerEntry<H>| entry_model(e)) =~= before.map_values(|e: ListenerEntry<H>| entry_model(e)).push(keys[consumed as int]));
                }
            } else {
                proof {
                    reveal(Seq::filter);
                }
            }
            consumed += 1;
            proof {
                assert(rest@ =~= initial.skip(consumed as int));
            }
        }
        proof {
            assert(keys.take(initial.len() as int) =~= keys);
            lemma_filter_distinct(keys, pred);
        }
    }
}

impl<H> Listeners<H> {
    /// Registers `handler` for `event` and `target` under `id`, replacing the listener of the
    /// same event and id. While listeners run, the registration is deferred instead.
    pub fn listen_with_id(&mut self, id: EventId, event: String, target: EventTarget, handler: H)
        requires
            old(self).wf(),
        ensures
            final(self).wf(),
            final(self).is_dispatching() == old(self).is_dispatching(),
            final(self).js_registered() == old(self).js_registered(),
            final(self).next_id() == old(self).next_id(),
            old(self).is_dispatching() ==> final(self).registered() == old(self).registered()
                && final(self).pending_actions() == old(self).pending_actions().push(
                Pending::Listen { id, event, target, handler },
            ),
            !old(self).is_dispatching() ==> final(self).registered() == with_listener(
                old(self).registered(),
                event@,
                id,
                target@,
                handler,
            ) && final(self).pending_actions() == old(self).pending_actions(),
    {
        if self.dispatching {
            self.insert_pending(Pending::Listen { id, event, target, handler });
        } else {
            self.remove_where(Some(event.as_str()), id);
            let ghost before = self.registered();
            let ghost key: ListenerModel<H> = (event@, id, target@, handler);
            proof {
                old(self).registered().filter_lemma(event_id_differs::<H>(event@, id));
            }
            self.handlers.push(ListenerEntry { event, id, target, handler });
            proof {
                let after = self.registered();
                assert(after =~= before.push(key));
                assert forall|i: int, j: int|
                    0 <= i < after.len() && 0 <= j < after.len() && i != j implies !((#[trigger] after[i]).0 == (#[trigger] after[j]).0
                        && after[i].1 == after[j].1) by {
                    if i < before.len() && j < before.len() {
                        assert(after[i] == before[i] && after[j] == before[j]);
                    } else if i < before.len() {
                        assert(event_id_differs::<H>(key.0, id)(before[i]));
                    } else {
                        assert(event_id_differs::<H>(key.0, id)(before[j]));
                    }
                }
            }
        }
    }

    /// Registers `handler` for `event` and `target` under a fresh id, which it returns.
    pub fn listen(&mut self, event: String, target: EventTarget, handler: H) -> (r: EventId)
        requires
            old(self).wf(),
        ensures
            r == old(self).next_id(),
            final(self).wf(),
            final(self).next_id() == (if old(self).next_id() == u32::MAX { 0 } else { (old(self).next_id() + 1) as u32 }),
            final(self).is_dispatching() == old(self).is_dispatching(),
            final(self).js_registered() == old(self).js_registered(),
            old(self).is_dispatching() ==> final(self).registered() == old(self).registered()
                && final(self).pending_actions() == old(self).pending_actions().push(
                Pending::Listen { id: r, event, target, handler },
            ),
            !old(self).is_dispatching() ==> final(self).registered() == with_listener(
                old(self).registered(),
                event@,
                r,
                target@,
                handler,
            ) && final(self).pending_actions() == old(self).pending_actions(),
    {
        let id = self.next_event_id();
        self.listen_with_id(id, event, target, handler);
        id
    }

    /// Removes the listeners with id `id`. While listeners run, the removal is deferred instead.
    pub fn unlisten(&mut self, id: EventId)
        requires
            old(self).wf(),
        ensures
            final(self).wf(),
            final(self).is_dispatching() == old(self).is_dispatching(),
            final(self).js_registered() == old(self).js_registered(),
            final(self).next_id() == old(self).next_id(),
            old(self).is_dispatching() ==> final(self).registered() == old(self).registered()
                && final(self).pending_actions() == old(self).pending_actions().push(Pending::Unlisten(id)),
            !old(self).is_dispatching() ==> final(self).registered() == without_id(old(self).registered(), id)
                && final(self).pending_actions() == old(self).pending_actions(),
    {
        if self.dispatching {
            self.insert_pending(Pending::Unlisten(id));
        } else {
            self.remove_where(None, id);
        }
    }

    /// The ids of the listeners of `event` that receive an event emitted under `filter`.
    fn receiving(&self, event: &str, filter: Option<&EventTarget>) -> (r: Vec<EventId>)
        ensures
            r@ == receiving_ids(self.registered(), event@, filter_model(filter)),
    {
        let mut ids: Vec<EventId> = Vec::new();
        let mut i: usize = 0;
        while i < self.handlers.len()
            invariant
                i <= self.handlers@.len(),
                ids@ == receiving_ids(self.registered().take(i as int), event@, filter_model(filter)),
            decreases self.handlers@.len() - i,
        {
            let entry = &self.handlers[i];
            let ghost reg = self.registered();
            assert(reg.take(i + 1).drop_last() =~= reg.take(i as int));
            assert(reg.take(i + 1).last() == entry_model(*entry));
            if str_eq(entry.event.as_str(), event) && receives_exec(filter, &entry.target) {
                ids.push(entry.id);
            }
            i += 1;
        }
        assert(self.registered().take(i as int) =~= self.registered());
        ids
    }

    /// Starts emitting `args` under `filter` (`None`: to every listener of the event). While
    /// listeners run, the emit is deferred, with its filter, and [`EmitPlan::Deferred`]
    /// comes back. Otherwise the listeners that receive it are returned; when there are any,
    /// they are now running, until [`Listeners::end_emit`].
    pub fn begin_emit(&mut self, args: EmitArgs, filter: Option<&EventTarget>) -> (r: EmitPlan)
        requires
            old(self).wf(),
        ensures
            final(self).wf(),
            final(self).registered() == old(self).registered(),
            final(self).js_registered() == old(self).js_registered(),
            final(self).next_id() == old(self).next_id(),
            old(self).is_dispatching() ==> r is Deferred && final(self).is_dispatching()
                && final(self).pending_actions().len() == old(self).pending_actions().len() + 1
                && final(self).pending_actions().drop_last() == old(self).pending_actions()
                && (final(self).pending_actions().last() matches Pending::Emit { args: a, filter: f }
                    && a == args && owned_filter_model(f) == filter_model(filter)),
            !old(self).is_dispatching() ==> final(self).pending_actions() == old(self).pending_actions(),
            !old(self).is_dispatching() ==> ({
                let ids = receiving_ids(old(self).registered(), args.event_name(), filter_model(filter));
                &&& ids.len() == 0 ==> r is NoListener && !final(self).is_dispatching()
                &&& ids.len() > 0 ==> (r matches EmitPlan::Run(v) && v@ == ids) && final(self).is_dispatching()
            }),
    {
        if self.dispatching {
            let owned = match filter {
                Some(t) => Some(t.duplicate()),
                None => None,
            };
            let ghost before = self.pending_actions();
            self.insert_pending(Pending::Emit { args, filter: owned });
            assert(self.pending_actions().drop_last() =~= before);
            return EmitPlan::Deferred;
        }
        let ids = self.receiving(args.event(), filter);
        if ids.len() == 0 {
            EmitPlan::NoListener
        } else {
            self.dispatching = true;
            EmitPlan::Run(ids)
        }
    }

    /// The number of emits with a filter predicate among the deferred actions.
    fn count_deferred_predicates(&self) -> (r: usize)
        ensures
            r == deferred_predicates(self.pending_actions()),
    {
        let mut n: usize = 0;
        let mut i: usize = 0;
        assert(self.pending@.take(0) =~= Seq::<Pending<H>>::empty());
        while i < self.pending.len()
            invariant
                i <= self.pending@.len(),
                n == deferred_predicates(self.pending@.take(i as int)),
                n <= i,
            decreases self.pending@.len() - i,
        {
            assert(self.pending@.take(i + 1).drop_last() =~= self.pending@.take(i as int));
            match &self.pending[i] {
                Pending::EmitWith { .. } => {
                    n += 1;
                },
                _ => {},
            }
            i += 1;
        }
        assert(self.pending@.take(i as int) =~= self.pending@);
        n
    }

    /// Starts emitting `args` to the listeners of its event that the predicate `filter` lets
    /// through: listeners with the target `Any`, and those whose target it accepts (it is asked
    /// for the others only). While listeners run, the emit is deferred as
    /// [`Pending::EmitWith`], numbered among the predicates deferred since the last
    /// [`Listeners::end_emit`], and [`EmitPlanWith::Deferred`] comes back with that number, for
    /// the caller to keep the predicate under. Otherwise the listeners that receive it are
    /// returned; when there are any, they are now running, until [`Listeners::end_emit`].
    pub fn begin_emit_with<P: Fn(&EventTarget) -> bool>(&mut self, args: EmitArgs, filter: P) -> (r: EmitPlanWith)
        requires
            old(self).wf(),
            forall|t: &EventTarget| call_requires(filter, (t,)),
        ensures
            final(self).wf(),
            final(self).registered() == old(self).registered(),
            final(self).targets() == old(self).targets(),
            final(self).js_registered() == old(self).js_registered(),
            final(self).next_id() == old(self).next_id(),
            old(self).is_dispatching() ==> final(self).is_dispatching() && ({
                let slot = deferred_predicates(old(self).pending_actions());
                &&& r == EmitPlanWith::Deferred(slot as usize)
                &&& final(self).pending_actions() == old(self).pending_actions().push(Pending::EmitWith { args, slot: slot as usize })
            }),
            !old(self).is_dispatching() ==> final(self).pending_actions() == old(self).pending_actions(),
            !old(self).is_dispatching() ==> exists|answers: Seq<bool>| {
                &&& answers.len() == old(self).registered().len()
                &&& forall|i: int| 0 <= i < answers.len() && old(self).registered()[i].0 == args.event_name() && !(old(self).registered()[i].2 is Any)
                    ==> #[trigger] call_ensures(filter, (&old(self).targets()[i],), answers[i])
                &&& ({
                    let ids = chosen_ids(old(self).registered(), args.event_name(), answers);
                    &&& ids.len() == 0 ==> r is NoListener && !final(self).is_dispatching()
                    &&& ids.len() > 0 ==> (r matches EmitPlanWith::Run(v) && v@ == ids) && final(self).is_dispatching()
                })
            },
    {
        if self.dispatching {
            let slot = self.count_deferred_predicates();
            self.insert_pending(Pending::EmitWith { args, slot });
            return EmitPlanWith::Deferred(slot);
        }
        let ghost reg = self.registered();
        let mut ids: Vec<EventId> = Vec::new();
        let ghost mut answers: Seq<bool> = Seq::empty();
        let mut i: usize = 0;
        while i < self.handlers.len()
            invariant
                i <= self.handlers@.len(),
                reg == self.registered(),
                self.targets() == old(self).targets(),
                self.registered() == old(self).registered(),
                forall|t: &EventTarget| call_requires(filter, (t,)),
                answers.len() == i,
                forall|j: int| 0 <= j < i && reg[j].0 == args.event_name() && !(reg[j].2 is Any)
                    ==> #[trigger] call_ensures(filter, (&self.targets()[j],), answers[j]),
                ids@ == chosen_ids(reg.take(i as int), args.event_name(), answers),
            decreases self.handlers@.len() - i,
        {
            let entry = &self.handlers[i];
            assert(reg.take(i + 1).drop_last() =~= reg.take(i as int));
            assert(reg.take(i + 1).last() == entry_model(*entry));
            assert(self.targets()[i as int] == entry.target);
            let ghost prev = answers;
            if str_eq(entry.event.as_str(), args.event()) {
                let any = match &entry.target {
                    EventTarget::Any => true,
                    _ => false,
                };
                if any {
                    ids.push(entry.id);
                    proof { answers = prev.push(true); }
                } else {
                    assert(call_requires(filter, (&entry.target,)));
                    let answer = filter(&entry.target);
                    proof { answers = prev.push(answer); }
                    if answer {
                        ids.push(entry.id);
                    }
                }
            } else {
                proof { answers = prev.push(false); }
            }
            proof {
                assert forall|j: int| 0 <= j < i + 1 && reg[j].0 == args.event_name() && !(reg[j].2 is Any)
                    implies #[trigger] call_ensures(filter, (&self.targets()[j],), answers[j]) by {
                    if j < i {
                        assert(answers[j] == prev[j]);
                    }
                }
                lemma_chosen_ids_prefix(reg.take(i as int), args.event_name(), prev, answers);
            }
            i += 1;
        }
        assert(reg.take(i as int) =~= reg);
        if ids.len() == 0 {
            EmitPlanWith::NoListener
        } else {
            self.dispatching = true;
            EmitPlanWith::Run(ids)
        }
    }

    /// Ends an emit: the listeners are no longer running, and the actions deferred meanwhile
    /// come back, in the order they were made, for the caller to apply.
    pub fn end_emit(&mut self) -> (r: Vec<Pending<H>>)
        ensures
            r@ == old(self).pending_actions(),
            final(self).pending_actions().len() == 0,
            !final(self).is_dispatching(),
            final(self).registered() == old(self).registered(),
            final(self).js_registered() == old(self).js_registered(),
            final(self).next_id() == old(self).next_id(),
            final(self).wf() == old(self).wf(),
    {
        self.dispatching = false;
        let mut taken: Vec<Pending<H>> = Vec::new();
        std::mem::swap(&mut taken, &mut self.pending);
        taken
    }

    /// The handler of the listener of `event` with id `id`, if there is one.
    pub fn handler(&self, event: &str, id: EventId) -> (r: Option<&H>)
        ensures
            r is None <==> !(exists|i: int| 0 <= i < self.registered().len() && (#[trigger] self.registered()[i]).0 == event@ && self.registered()[i].1 == id),
            r matches Some(h) ==> exists|i: int| 0 <= i < self.registered().len() && (#[trigger] self.registered()[i]) == (event@, id, self.registered()[i].2, *h),
    {
        let mut i: usize = 0;
        while i < self.handlers.len()
            invariant
                i <= self.handlers@.len(),
                forall|j: int| 0 <= j < i ==> !((#[trigger] self.registered()[j]).0 == event@ && self.registered()[j].1 == id),
            decreases self.handlers@.len() - i,
        {
            let entry = &self.handlers[i];
            assert(self.registered()[i as int] == entry_model(*entry));
            if entry.id == id && str_eq(entry.event.as_str(), event) {
                return Some(&entry.handler);
            }
            i += 1;
        }
        None
    }

    /// Registers a frontend listener: the webview `webview` listens to `event` for `target`
    /// under `id`. A listener already registered is not added twice.
    pub fn listen_js(&mut self, event: &str, webview: &str, target: EventTarget, id: EventId)
        requires
            old(self).wf(),
        ensures
            final(self).wf(),
            final(self).js_registered() == js_with(old(self).js_registered(), (webview@, event@, target@, id)),
            final(self).registered() == old(self).registered(),
            final(self).pending_actions() == old(self).pending_actions(),
            final(self).is_dispatching() == old(self).is_dispatching(),
            final(self).next_id() == old(self).next_id(),
    {
        let ghost key: JsModel = (webview@, event@, target@, id);
        let mut i: usize = 0;
        while i < self.js_listeners.len()
            invariant
                i <= self.js_listeners@.len(),
                self.wf(),
                key == (webview@, event@, target@, id),
                forall|j: int| 0 <= j < i ==> #[trigger] self.js_registered()[j] != key,
            decreases self.js_listeners@.len() - i,
        {
            let l = &self.js_listeners[i];
            assert(self.js_registered()[i as int] == js_key(*l));
            if l.id == id && str_eq(l.webview.as_str(), webview) && str_eq(l.event.as_str(), event) && same_target(&l.target, &target) {
                assert(self.js_registered()[i as int] == key);
                return;
            }
            i += 1;
        }
        let ghost before = self.js_registered();
        self.js_listeners.push(JsListener { webview: to_owned_string(webview), event: to_owned_string(event), target, id });
        proof {
            assert(self.js_registered() =~= before.push(key));
            assert(!before.contains(key));
        }
    }

    /// Removes the frontend listeners of `event` with id `id`, in every webview.
    pub fn unlisten_js(&mut self, event: &str, id: EventId)
        requires
            old(self).wf(),
        ensures
            final(self).wf(),
            final(self).js_registered() == old(self).js_registered().filter(js_differs(event@, id)),
            final(self).registered() == old(self).registered(),
            final(self).pending_actions() == old(self).pending_actions(),
            final(self).is_dispatching() == old(self).is_dispatching(),
            final(self).next_id() == old(self).next_id(),
    {
        let ghost keys = self.js_registered();
        let ghost pred = js_differs(event@, id);
        let mut kept: Vec<JsListener> = Vec::new();
        let mut i: usize = 0;
        proof {
            reveal(Seq::filter);
            assert(keys.take(0).filter(pred) =~= Seq::empty());
        }
        while i < self.js_listeners.len()
            invariant
                i <= self.js_listeners@.len(),
                keys == self.js_registered(),
                pred == js_differs(event@, id),
                kept@.map_values(|l: JsListener| js_key(l)) == keys.take(i as int).filter(pred),
            decreases self.js_listeners@.len() - i,
        {
            let l = &self.js_listeners[i];
            let ghost before = kept@;
            assert(keys[i as int] == js_key(*l));
            assert(keys.take(i + 1).drop_last() =~= keys.take(i as int));
            assert(keys.take(i + 1).last() == keys[i as int]);
            if !(l.id == id && str_eq(l.event.as_str(), event)) {
                kept.push(l.duplicate());
                proof {
                    reveal(Seq::filter);
                    assert(kept@.map_values(|l: JsListener| js_key(l)) =~= before.map_values(|l: JsListener| js_key(l)).push(keys[i as int]));
                }
            } else {
                proof {
                    reveal(Seq::filter);
                }
            }
            i += 1;
        }
        proof {
            assert(keys.take(i as int) =~= keys);
            lemma_filter_no_duplicates(keys, pred);
        }
        self.js_listeners = kept;
    }

    /// Whether some frontend listener of `event`, in any webview, has a target that an event
    /// emitted under `filter` reaches (`None`: any target).
    pub fn has_js_listener(&self, event: &str, filter: Option<&EventTarget>) -> (r: bool)
        ensures
            r == js_listened(self.js_registered(), event@, filter_model(filter)),
    {
        let mut i: usize = 0;
        while i < self.js_listeners.len()
            invariant
                i <= self.js_listeners@.len(),
                forall|j: int| 0 <= j < i ==> !((#[trigger] self.js_registered()[j]).1 == event@ && receives(filter_model(filter), self.js_registered()[j].2)),
            decreases self.js_listeners@.len() - i,
        {
            let l = &self.js_listeners[i];
            assert(self.js_registered()[i as int] == js_key(*l));
            if str_eq(l.event.as_str(), event) && receives_exec(filter, &l.target) {
                return true;
            }
            i += 1;
        }
        false
    }

    /// The ids of the frontend listeners of `webview` for `event` that an event emitted under
    /// `filter` reaches (`None`: all of them).
    pub fn js_listener_ids(&self, webview: &str, event: &str, filter: Option<&EventTarget>) -> (r: Vec<EventId>)
        ensures
            r@ == js_receiving_ids(self.js_registered(), webview@, event@, filter_model(filter)),
    {
        let mut ids: Vec<EventId> = Vec::new();
        let mut i: usize = 0;
        while i < self.js_listeners.len()
            invariant
                i <= self.js_listeners@.len(),
                ids@ == js_receiving_ids(self.js_registered().take(i as int), webview@, event@, filter_model(filter)),
            decreases self.js_listeners@.len() - i,
        {
            let l = &self.js_listeners[i];
            let ghost js = self.js_registered();
            assert(js.take(i + 1).drop_last() =~= js.take(i as int));
            assert(js.take(i + 1).last() == js_key(*l));
            if str_eq(l.webview.as_str(), webview) && str_eq(l.event.as_str(), event) && receives_exec(filter, &l.target) {
                ids.push(l.id);
            }
            i += 1;
        }
        assert(self.js_registered().take(i as int) =~= self.js_registered());
        ids
    }
}

/// Filtering keeps a sequence free of duplicates.
pub proof fn lemma_filter_no_duplicates<A>(s: Seq<A>, p: spec_fn(A) -> bool)
    requires
        s.no_duplicates(),
    ensures
        s.filter(p).no_duplicates(),
    decreases s.len(),
{
    reveal(Seq::filter);
    if s.len() > 0 {
        let d = s.drop_last();
        assert(d.no_duplicates());
        lemma_filter_no_duplicates(d, p);
        lemma_filter_subset(d, p);
        let sub = d.filter(p);
        if p(s.last()) {
            let f = s.filter(p);
            assert(f == sub.push(s.last()));
            assert forall|i: int, j: int| 0 <= i < f.len() && 0 <= j < f.len() && i != j implies f[i] != f[j] by {
                if i < sub.len() && j < sub.len() {
                    assert(f[i] == sub[i] && f[j] == sub[j]);
                } else if i < sub.len() {
                    assert(d.contains(sub[i]));
                    let k = choose|k: int| 0 <= k < d.len() && d[k] == sub[i];
                    assert(s[k] == d[k]);
                    assert(f[i] == sub[i]);
                    assert(f[j] == s[s.len() - 1]);
                } else if j < sub.len() {
                    assert(d.contains(sub[j]));
                    let k = choose|k: int| 0 <= k < d.len() && d[k] == sub[j];
                    assert(s[k] == d[k]);
                    assert(f[j] == sub[j]);
                    assert(f[i] == s[s.len() - 1]);
                }
            }
        }
    }
}

/// An id is among those an emit reaches exactly when some listener of the event has that id and
/// a target the emit reaches.
pub proof fn lemma_receiving_ids_contains<H>(registered: Seq<ListenerModel<H>>, event: Seq<char>, filter: Option<TargetModel>, id: EventId)
    ensures
        receiving_ids(registered, event, filter).contains(id) <==> exists|i: int|
            0 <= i < registered.len() && (#[trigger] registered[i]).0 == event && registered[i].1 == id && receives(filter, registered[i].2),
    decreases registered.len(),
{
    if registered.len() > 0 {
        let d = registered.drop_last();
        lemma_receiving_ids_contains(d, event, filter, id);
        let last = registered.last();
        let rest = receiving_ids(d, event, filter);
        if exists|i: int| 0 <= i < registered.len() && (#[trigger] registered[i]).0 == event && registered[i].1 == id && receives(filter, registered[i].2) {
            let i = choose|i: int| 0 <= i < registered.len() && (#[trigger] registered[i]).0 == event && registered[i].1 == id && receives(filter, registered[i].2);
            if i < d.len() {
                assert(d[i] == registered[i]);
                assert(rest.contains(id));
                if last.0 == event && receives(filter, last.2) {
                    let k = choose|k: int| 0 <= k < rest.len() && rest[k] == id;
                    assert(rest.push(last.1)[k] == id);
                }
            } else {
                assert(registered[i] == last);
                assert(rest.push(last.1)[rest.len() as int] == id);
            }
        }
        if receiving_ids(registered, event, filter).contains(id) {
            if last.0 == event && receives(filter, last.2) && last.1 == id {
                assert(registered[registered.len() - 1] == last);
            } else {
                let k = choose|k: int| 0 <= k < receiving_ids(registered, event, filter).len() && receiving_ids(registered, event, filter)[k] == id;
                if last.0 == event && receives(filter, last.2) {
                    assert(k < rest.len());
                    assert(rest[k] == id);
                }
                assert(rest.contains(id));
                let i = choose|i: int| 0 <= i < d.len() && (#[trigger] d[i]).0 == event && d[i].1 == id && receives(filter, d[i].2);
                assert(registered[i] == d[i]);
            }
        }
    }
}

/// A listener registered for an event receives the event's emits under exactly the filters that
/// reach its target.
pub proof fn lemma_listen_then_emit<H>(
    registered: Seq<ListenerModel<H>>,
    event: Seq<char>,
    id: EventId,
    target: TargetModel,
    handler: H,
    filter: Option<TargetModel>,
)
    ensures
        receiving_ids(with_listener(registered, event, id, target, handler), event, filter).contains(id) <==> receives(filter, target),
{
    let w = without_event_id(registered, event, id);
    let s = with_listener(registered, event, id, target, handler);
    registered.filter_lemma(event_id_differs::<H>(event, id));
    assert(s.drop_last() =~= w);
    lemma_receiving_ids_contains(w, event, filter, id);
    if receiving_ids(w, event, filter).contains(id) {
        let i = choose|i: int| 0 <= i < w.len() && (#[trigger] w[i]).0 == event && w[i].1 == id && receives(filter, w[i].2);
        assert(event_id_differs::<H>(event, id)(w[i]));
    }
    lemma_receiving_ids_contains(s, event, filter, id);
    if receives(filter, target) {
        assert(s[s.len() - 1] == (event, id, target, handler));
    }
}

/// Registering a listener leaves every other listener as it was: an emit reaches a listener of
/// another id exactly when it reached it before.
pub proof fn lemma_listen_keeps_others<H>(
    registered: Seq<ListenerModel<H>>,
    event: Seq<char>,
    id: EventId,
    target: TargetModel,
    handler: H,
    other_event: Seq<char>,
    other_id: EventId,
    filter: Option<TargetModel>,
)
    requires
        other_id != id,
    ensures
        receiving_ids(with_listener(registered, event, id, target, handler), other_event, filter).contains(other_id)
            <==> receiving_ids(registered, other_event, filter).contains(other_id),
{
    let p = event_id_differs::<H>(event, id);
    let w = without_event_id(registered, event, id);
    let s = with_listener(registered, event, id, target, handler);
    registered.filter_lemma(p);
    lemma_filter_subset(registered, p);
    lemma_receiving_ids_contains(registered, other_event, filter, other_id);
    lemma_receiving_ids_contains(s, other_event, filter, other_id);
    if receiving_ids(registered, other_event, filter).contains(other_id) {
        let i = choose|i: int| 0 <= i < registered.len() && (#[trigger] registered[i]).0 == other_event && registered[i].1 == other_id && receives(filter, registered[i].2);
        assert(p(registered[i]));
        assert(w.contains(registered[i]));
        let k = choose|k: int| 0 <= k < w.len() && w[k] == registered[i];
        assert(s[k] == w[k]);
    }
    if receiving_ids(s, other_event, filter).contains(other_id) {
        let i = choose|i: int| 0 <= i < s.len() && (#[trigger] s[i]).0 == other_event && s[i].1 == other_id && receives(filter, s[i].2);
        assert(i < w.len());
        assert(s[i] == w[i]);
        assert(registered.contains(w[i]));
        let k = choose|k: int| 0 <= k < registered.len() && registered[k] == w[i];
        assert(registered[k].1 == other_id);
    }
}

/// Once a listener is removed, no emit reaches its id.
pub proof fn lemma_unlisten_then_emit<H>(registered: Seq<ListenerModel<H>>, id: EventId, event: Seq<char>, filter: Option<TargetModel>)
    ensures
        !receiving_ids(without_id(registered, id), event, filter).contains(id),
{
    let w = without_id(registered, id);
    registered.filter_lemma(id_differs::<H>(id));
    lemma_receiving_ids_contains(w, event, filter, id);
    if receiving_ids(w, event, filter).contains(id) {
        let i = choose|i: int| 0 <= i < w.len() && (#[trigger] w[i]).0 == event && w[i].1 == id && receives(filter, w[i].2);
        assert(id_differs::<H>(id)(w[i]));
    }
}

/// A frontend listener registered twice is registered once.
pub proof fn lemma_listen_js_idempotent(listeners: Seq<JsModel>, l: JsModel)
    ensures
        js_with(js_with(listeners, l), l) == js_with(listeners, l),
{
    if !listeners.contains(l) {
        assert(listeners.push(l)[listeners.len() as int] == l);
    }
}

/// The frontend ids an emit reaches in a webview come from its listeners of the event whose
/// target the emit reaches.
pub proof fn lemma_js_receiving_ids_contains(listeners: Seq<JsModel>, webview: Seq<char>, event: Seq<char>, filter: Option<TargetModel>, id: EventId)
    ensures
        js_receiving_ids(listeners, webview, event, filter).contains(id) ==> exists|i: int|
            0 <= i < listeners.len() && (#[trigger] listeners[i]).0 == webview && listeners[i].1 == event && listeners[i].3 == id,
    decreases listeners.len(),
{
    if listeners.len() > 0 {
        let d = listeners.drop_last();
        lemma_js_receiving_ids_contains(d, webview, event, filter, id);
        let last = listeners.last();
        let rest = js_receiving_ids(d, webview, event, filter);
        if js_receiving_ids(listeners, webview, event, filter).contains(id) {
            if last.0 == webview && last.1 == event && receives(filter, last.2) && last.3 == id {
                assert(listeners[listeners.len() - 1] == last);
            } else {
                let k = choose|k: int| 0 <= k < js_receiving_ids(listeners, webview, event, filter).len() && js_receiving_ids(listeners, webview, event, filter)[k] == id;
                if last.0 == webview && last.1 == event && receives(filter, last.2) {
                    assert(k < rest.len());
                    assert(rest[k] == id);
                }
                assert(rest.contains(id));
                let i = choose|i: int| 0 <= i < d.len() && (#[trigger] d[i]).0 == webview && d[i].1 == event && d[i].3 == id;
                assert(listeners[i] == d[i]);
            }
        }
    }
}

/// Once the frontend listeners of an event and id are removed, no emit of that event reaches
/// that id in any webview.
pub proof fn lemma_unlisten_js_then_emit(listeners: Seq<JsModel>, event: Seq<char>, id: EventId, webview: Seq<char>, filter: Option<TargetModel>)
    ensures
        !js_receiving_ids(listeners.filter(js_differs(event, id)), webview, event, filter).contains(id),
{
    let w = listeners.filter(js_differs(event, id));
    listeners.filter_lemma(js_differs(event, id));
    lemma_js_receiving_ids_contains(w, webview, event, filter, id);
    if js_receiving_ids(w, webview, event, filter).contains(id) {
        let i = choose|i: int| 0 <= i < w.len() && (#[trigger] w[i]).0 == webview && w[i].1 == event && w[i].3 == id;
        assert(js_differs(event, id)(w[i]));
    }
}

/// An emit reaches each listener of its event that its filter lets through, once: the ids it
/// runs are those listeners' ids, none twice.
pub proof fn lemma_emit_reaches_each_once<H>(registered: Seq<ListenerModel<H>>, event: Seq<char>, filter: Option<TargetModel>)
    requires
        distinct_keys(registered),
    ensures
        receiving_ids(registered, event, filter).no_duplicates(),
        forall|id: EventId| #[trigger] receiving_ids(registered, event, filter).contains(id) <==> exists|i: int|
            0 <= i < registered.len() && (#[trigger] registered[i]).0 == event && registered[i].1 == id && receives(filter, registered[i].2),
    decreases registered.len(),
{
    assert forall|id: EventId| #[trigger] receiving_ids(registered, event, filter).contains(id) <==> exists|i: int|
        0 <= i < registered.len() && (#[trigger] registered[i]).0 == event && registered[i].1 == id && receives(filter, registered[i].2) by {
        lemma_receiving_ids_contains(registered, event, filter, id);
    }
    if registered.len() > 0 {
        let d = registered.drop_last();
        assert(distinct_keys(d)) by {
            assert forall|i: int, j: int| 0 <= i < d.len() && 0 <= j < d.len() && i != j implies !((#[trigger] d[i]).0 == (#[trigger] d[j]).0 && d[i].1 == d[j].1) by {
                assert(d[i] == registered[i] && d[j] == registered[j]);
            }
        }
        lemma_emit_reaches_each_once(d, event, filter);
        let last = registered.last();
        let rest = receiving_ids(d, event, filter);
        if last.0 == event && receives(filter, last.2) {
            lemma_receiving_ids_contains(d, event, filter, last.1);
            if rest.contains(last.1) {
                let i = choose|i: int| 0 <= i < d.len() && (#[trigger] d[i]).0 == event && d[i].1 == last.1 && receives(filter, d[i].2);
                assert(registered[i] == d[i]);
                assert(registered[registered.len() - 1] == last);
                assert(false);
            }
            assert forall|a: int, b: int| 0 <= a < rest.push(last.1).len() && 0 <= b < rest.push(last.1).len() && a != b
                implies rest.push(last.1)[a] != rest.push(last.1)[b] by {
                if a < rest.len() && b < rest.len() {
                } else if a < rest.len() {
                    assert(rest.contains(rest[a]));
                } else {
                    assert(rest.contains(rest[b]));
                }
            }
        }
    }
}

/// No two entries share an event name and an id.
pub open spec fn distinct_keys<H>(s: Seq<ListenerModel<H>>) -> bool {
    forall|i: int, j: int|
        0 <= i < s.len() && 0 <= j < s.len() && i != j ==> !((#[trigger] s[i]).0 == (#[trigger] s[j]).0 && s[i].1 == s[j].1)
}

/// Every element of a filtered sequence is an element of the sequence.
pub proof fn lemma_filter_subset<A>(s: Seq<A>, p: spec_fn(A) -> bool)
    ensures
        forall|i: int| 0 <= i < s.filter(p).len() ==> s.contains(#[trigger] s.filter(p)[i]),
    decreases s.len(),
{
    reveal(Seq::filter);
    if s.len() > 0 {
        lemma_filter_subset(s.drop_last(), p);
        let sub = s.drop_last().filter(p);
        assert forall|i: int| 0 <= i < s.filter(p).len() implies s.contains(#[trigger] s.filter(p)[i]) by {
            if i < sub.len() {
                assert(s.filter(p)[i] == sub[i]);
                let j = choose|j: int| 0 <= j < s.drop_last().len() && s.drop_last()[j] == sub[i];
                assert(s[j] == sub[i]);
            } else {
                assert(s.filter(p)[i] == s.last());
                assert(s[s.len() - 1] == s.last());
            }
        }
    }
}

/// Filtering keeps event names and ids distinct.
pub proof fn lemma_filter_distinct<H>(s: Seq<ListenerModel<H>>, p: spec_fn(ListenerModel<H>) -> bool)
    requires
        distinct_keys(s),
    ensures
        distinct_keys(s.filter(p)),
    decreases s.len(),
{
    reveal(Seq::filter);
    if s.len() > 0 {
        let d = s.drop_last();
        assert(distinct_keys(d)) by {
            assert forall|i: int, j: int| 0 <= i < d.len() && 0 <= j < d.len() && i != j implies !((#[trigger] d[i]).0 == (#[trigger] d[j]).0 && d[i].1 == d[j].1) by {
                assert(d[i] == s[i] && d[j] == s[j]);
            }
        }
        lemma_filter_distinct(d, p);
        lemma_filter_subset(d, p);
        let sub = d.filter(p);
        if p(s.last()) {
            let f = s.filter(p);
            assert(f == sub.push(s.last()));
            assert forall|i: int, j: int| 0 <= i < f.len() && 0 <= j < f.len() && i != j implies !((#[trigger] f[i]).0 == (#[trigger] f[j]).0 && f[i].1 == f[j].1) by {
                if i < sub.len() && j < sub.len() {
                    assert(f[i] == sub[i] && f[j] == sub[j]);
                } else if i < sub.len() {
                    assert(d.contains(sub[i]));
                    let k = choose|k: int| 0 <= k < d.len() && d[k] == sub[i];
                    assert(s[k] == d[k]);
                    assert(f[i] == sub[i]);
                    assert(f[j] == s[s.len() - 1]);
                } else if j < sub.len() {
                    assert(d.contains(sub[j]));
                    let k = choose|k: int| 0 <= k < d.len() && d[k] == sub[j];
                    assert(s[k] == d[k]);
                    assert(f[j] == sub[j]);
                    assert(f[i] == s[s.len() - 1]);
                }
            }
        }
    }
}

} // verus!
