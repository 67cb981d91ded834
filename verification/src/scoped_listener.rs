//! Event listeners scoped to a single window or webview, keyed by its label.
//!
//! Listeners of a label run in registration order. A dispatch is split in two: [`ScopedEventListeners::begin_dispatch`]
//! hands the listeners of a label to the caller, who runs them, and [`ScopedEventListeners::end_dispatch`]
//! hands them back. While a label dispatches, its listeners may register listeners for any label
//! and remove any label: a registration for the dispatching label is parked and joins the list once
//! the dispatch ends, and a removal of the dispatching label is not undone when it ends.

use vstd::prelude::*;

use crate::text::{str_eq, to_owned_string};

verus! {

/// The listeners of one label.
pub struct ScopedList<H> {
    label: String,
    handlers: Vec<H>,
    busy: bool,
}

/// The model of the listeners of one label: the label, its handlers in registration order, and
/// whether they are being dispatched.
pub type ListModel<H> = (Seq<char>, Seq<H>, bool);

/// The model of the whole: the lists of the labels, and the registrations parked during a
/// dispatch, in the order they were made.
pub struct ScopedState<H> {
    pub lists: Seq<ListModel<H>>,
    pub parked: Seq<(Seq<char>, H)>,
}

/// Event listeners scoped to windows and webviews.
pub struct ScopedEventListeners<H> {
    lists: Vec<ScopedList<H>>,
    pending: Vec<(String, H)>,
}

pub open spec fn list_model<H>(l: ScopedList<H>) -> ListModel<H> {
    (l.label_text(), l.handler_values(), l.is_busy())
}

impl<H> ScopedList<H> {
    pub closed spec fn label_text(&self) -> Seq<char> {
        self.label@
    }

    pub closed spec fn handler_values(&self) -> Seq<H> {
        self.handlers@
    }

    pub closed spec fn is_busy(&self) -> bool {
        self.busy
    }
}

/// Whether `label` has a list.
pub open spec fn has_label<H>(lists: Seq<ListModel<H>>, label: Seq<char>) -> bool {
    exists|i: int| 0 <= i < lists.len() && (#[trigger] lists[i]).0 == label
}

/// The position of the list of `label` (meaningful when [`has_label`]).
pub open spec fn label_position<H>(lists: Seq<ListModel<H>>, label: Seq<char>) -> int {
    choose|i: int| 0 <= i < lists.len() && (#[trigger] lists[i]).0 == label
}

/// No two lists share a label.
pub open spec fn labels_unique<H>(lists: Seq<ListModel<H>>) -> bool {
    forall|i: int, j: int| 0 <= i < lists.len() && 0 <= j < lists.len() && i != j ==> (#[trigger] lists[i]).0 != (#[trigger] lists[j]).0
}

/// Whether the listeners of `label` are being dispatched.
pub open spec fn label_busy<H>(lists: Seq<ListModel<H>>, label: Seq<char>) -> bool {
    has_label(lists, label) && lists[label_position(lists, label)].2
}

/// Registering `handler` for `label`: appended to the label's list (created if missing), or
/// parked while that list is dispatched.
pub open spec fn add_model<H>(st: ScopedState<H>, label: Seq<char>, handler: H) -> ScopedState<H> {
    if has_label(st.lists, label) {
        let i = label_position(st.lists, label);
        if st.lists[i].2 {
            ScopedState { lists: st.lists, parked: st.parked.push((label, handler)) }
        } else {
            ScopedState { lists: st.lists.update(i, (label, st.lists[i].1.push(handler), false)), parked: st.parked }
        }
    } else {
        ScopedState { lists: st.lists.push((label, seq![handler], false)), parked: st.parked }
    }
}

/// Registering each of `adds`, in order.
pub open spec fn apply_adds<H>(st: ScopedState<H>, adds: Seq<(Seq<char>, H)>) -> ScopedState<H>
    decreases adds.len(),
{
    if adds.len() == 0 {
        st
    } else {
        let before = apply_adds(st, adds.drop_last());
        add_model(before, adds.last().0, adds.last().1)
    }
}

/// Starting a dispatch of `label`: its handlers are handed out and its list is marked busy.
pub open spec fn begin_model<H>(st: ScopedState<H>, label: Seq<char>) -> ScopedState<H> {
    if has_label(st.lists, label) {
        let i = label_position(st.lists, label);
        ScopedState { lists: st.lists.update(i, (label, Seq::empty(), true)), parked: st.parked }
    } else {
        st
    }
}

/// Ending a dispatch of `label` with its `handlers`: they go back to the label's list if that list
/// is still the one being dispatched (it was not removed meanwhile), then the parked
/// registrations are made, in order.
pub open spec fn end_model<H>(st: ScopedState<H>, label: Seq<char>, handlers: Seq<H>) -> ScopedState<H> {
    let lists = if label_busy(st.lists, label) {
        st.lists.update(label_position(st.lists, label), (label, handlers, false))
    } else {
        st.lists
    };
    apply_adds(ScopedState { lists, parked: Seq::empty() }, st.parked)
}

/// Removing the list of `label`.
pub open spec fn remove_model<H>(st: ScopedState<H>, label: Seq<char>) -> ScopedState<H> {
    if has_label(st.lists, label) {
        ScopedState { lists: st.lists.remove(label_position(st.lists, label)), parked: st.parked }
    } else {
        st
    }
}

/// Registering keeps the labels unique.
pub proof fn lemma_add_keeps_unique<H>(st: ScopedState<H>, label: Seq<char>, handler: H)
    requires
        labels_unique(st.lists),
    ensures
        labels_unique(add_model(st, label, handler).lists),
{
    let r = add_model(st, label, handler).lists;
    if has_label(st.lists, label) {
        let i = label_position(st.lists, label);
        assert forall|a: int, b: int| 0 <= a < r.len() && 0 <= b < r.len() && a != b implies (#[trigger] r[a]).0 != (#[trigger] r[b]).0 by {
            assert(st.lists[a].0 == r[a].0 && st.lists[b].0 == r[b].0);
        }
    } else {
        assert forall|a: int, b: int| 0 <= a < r.len() && 0 <= b < r.len() && a != b implies (#[trigger] r[a]).0 != (#[trigger] r[b]).0 by {
            if a < st.lists.len() && b < st.lists.len() {
                assert(st.lists[a].0 == r[a].0 && st.lists[b].0 == r[b].0);
            } else if a < st.lists.len() {
                assert(st.lists[a].0 == r[a].0);
            } else {
                assert(st.lists[b].0 == r[b].0);
            }
        }
    }
}

/// Registering a sequence keeps the labels unique.
pub proof fn lemma_apply_adds_keeps_unique<H>(st: ScopedState<H>, adds: Seq<(Seq<char>, H)>)
    requires
        labels_unique(st.lists),
    ensures
        labels_unique(apply_adds(st, adds).lists),
    decreases adds.len(),
{
    if adds.len() > 0 {
        lemma_apply_adds_keeps_unique(st, adds.drop_last());
        lemma_add_keeps_unique(apply_adds(st, adds.drop_last()), adds.last().0, adds.last().1);
    }
}

/// With unique labels, the list at a position holding `label` is the one [`label_position`] names.
pub proof fn lemma_label_position<H>(lists: Seq<ListModel<H>>, i: int)
    requires
        labels_unique(lists),
        0 <= i < lists.len(),
    ensures
        has_label(lists, lists[i].0),
        label_position(lists, lists[i].0) == i,
{
    let l = lists[i].0;
    assert(has_label(lists, l));
    let j = label_position(lists, l);
    assert(lists[j].0 == l);
}

/// A listener registered for the label being dispatched does not run for that dispatch: once the
/// dispatch ends it is the last of the label's listeners.
pub proof fn lemma_parked_joins_after_dispatch<H>(st: ScopedState<H>, label: Seq<char>, handler: H)
    requires
        labels_unique(st.lists),
        st.parked.len() == 0,
        has_label(st.lists, label),
        !label_busy(st.lists, label),
    ensures
        ({
            let i = label_position(st.lists, label);
            let during = add_model(begin_model(st, label), label, handler);
            let after = end_model(during, label, st.lists[i].1);
            &&& during.lists[i].1.len() == 0
            &&& has_label(after.lists, label)
            &&& after.lists[label_position(after.lists, label)] == (label, st.lists[i].1.push(handler), false)
        }),
{
    let i = label_position(st.lists, label);
    let begun = begin_model(st, label);
    assert(labels_unique(begun.lists)) by {
        assert forall|a: int, b: int| 0 <= a < begun.lists.len() && 0 <= b < begun.lists.len() && a != b implies (#[trigger] begun.lists[a]).0 != (#[trigger] begun.lists[b]).0 by {
            assert(st.lists[a].0 == begun.lists[a].0 && st.lists[b].0 == begun.lists[b].0);
        }
    }
    lemma_label_position(begun.lists, i);
    let during = add_model(begun, label, handler);
    assert(during.parked =~= seq![(label, handler)]);
    let restored = ScopedState { lists: during.lists.update(i, (label, st.lists[i].1, false)), parked: Seq::<(Seq<char>, H)>::empty() };
    assert(labels_unique(restored.lists)) by {
        assert forall|a: int, b: int| 0 <= a < restored.lists.len() && 0 <= b < restored.lists.len() && a != b implies (#[trigger] restored.lists[a]).0 != (#[trigger] restored.lists[b]).0 by {
            assert(st.lists[a].0 == restored.lists[a].0 && st.lists[b].0 == restored.lists[b].0);
        }
    }
    lemma_label_position(restored.lists, i);
    let after = end_model(during, label, st.lists[i].1);
    assert(during.lists == begun.lists);
    assert(label_busy(during.lists, label));
    assert(during.parked.drop_last() =~= Seq::<(Seq<char>, H)>::empty());
    assert(apply_adds(restored, during.parked.drop_last()) == restored);
    assert(during.parked.last() == (label, handler));
    assert(after == add_model(restored, label, handler));
    lemma_add_keeps_unique(restored, label, handler);
    lemma_label_position(after.lists, i);
}

/// Removing the label being dispatched is not undone when the dispatch ends (unless a listener is
/// registered for it meanwhile).
pub proof fn lemma_remove_during_dispatch_stays<H>(st: ScopedState<H>, label: Seq<char>, handlers: Seq<H>)
    requires
        labels_unique(st.lists),
        label_busy(st.lists, label),
        forall|k: int| 0 <= k < st.parked.len() ==> (#[trigger] st.parked[k]).0 != label,
    ensures
        !has_label(end_model(remove_model(st, label), label, handlers).lists, label),
{
    let removed = remove_model(st, label);
    let i = label_position(st.lists, label);
    assert(!has_label(removed.lists, label)) by {
        if has_label(removed.lists, label) {
            let j = label_position(removed.lists, label);
            if j < i {
                assert(removed.lists[j] == st.lists[j]);
            } else {
                assert(removed.lists[j] == st.lists[j + 1]);
            }
        }
    }
    lemma_adds_without_label(ScopedState { lists: removed.lists, parked: Seq::empty() }, st.parked, label);
}

/// Registrations for other labels do not create the list of `label`.
pub proof fn lemma_adds_without_label<H>(st: ScopedState<H>, adds: Seq<(Seq<char>, H)>, label: Seq<char>)
    requires
        !has_label(st.lists, label),
        forall|k: int| 0 <= k < adds.len() ==> (#[trigger] adds[k]).0 != label,
    ensures
        !has_label(apply_adds(st, adds).lists, label),
    decreases adds.len(),
{
    if adds.len() > 0 {
        let d = adds.drop_last();
        assert forall|k: int| 0 <= k < d.len() implies (#[trigger] d[k]).0 != label by {
            assert(d[k] == adds[k]);
        }
        lemma_adds_without_label(st, d, label);
        let before = apply_adds(st, d);
        let last = adds.last();
        assert(last == adds[adds.len() - 1]);
        let after = add_model(before, last.0, last.1);
        if has_label(after.lists, label) {
            let j = label_position(after.lists, label);
            if j < before.lists.len() {
                if has_label(before.lists, last.0) && !before.lists[label_position(before.lists, last.0)].2 && j == label_position(before.lists, last.0) {
                    assert(after.lists[j].0 == last.0);
                } else {
                    assert(after.lists[j] == before.lists[j]);
                }
            }
        }
    }
}

impl<H> ScopedEventListeners<H> {
    /// The model.
    pub closed spec fn state(&self) -> ScopedState<H> {
        ScopedState {
            lists: self.lists@.map_values(|l: ScopedList<H>| list_model(l)),
            parked: self.pending@.map_values(|p: (String, H)| (p.0@, p.1)),
        }
    }

    /// No two lists share a label.
    pub open spec fn wf(&self) -> bool {
        labels_unique(self.state().lists)
    }

    /// No listeners.
    pub fn new() -> (r: Self)
        ensures
            r.wf(),
            r.state().lists.len() == 0,
            r.state().parked.len() == 0,
    {
        ScopedEventListeners { lists: Vec::new(), pending: Vec::new() }
    }

    /// The position of the list of `label`, if there is one.
    fn position(&self, label: &str) -> (r: Option<usize>)
        requires
            self.wf(),
        ensures
            r matches Some(i) ==> i < self.state().lists.len() && has_label(self.state().lists, label@)
                && label_position(self.state().lists, label@) == i,
            r is None ==> !has_label(self.state().lists, label@),
    {
        let mut i: usize = 0;
        while i < self.lists.len()
            invariant
                i <= self.lists@.len(),
                self.wf(),
                forall|j: int| 0 <= j < i ==> (#[trigger] self.state().lists[j]).0 != label@,
            decreases self.lists@.len() - i,
        {
            assert(self.state().lists[i as int] == list_model(self.lists@[i as int]));
            if str_eq(self.lists[i].label.as_str(), label) {
                proof {
                    lemma_label_position(self.state().lists, i as int);
                }
                return Some(i);
            }
            i += 1;
        }
        None
    }

    /// Whether the listeners of `label` are being dispatched.
    pub fn is_dispatching(&self, label: &str) -> (r: bool)
        requires
            self.wf(),
        ensures
            r == label_busy(self.state().lists, label@),
    {
        match self.position(label) {
            Some(i) => self.lists[i].busy,
            None => false,
        }
    }

    /// Registers `handler` for `label`, after its other listeners. While that label dispatches,
    /// the registration is parked until the dispatch ends.
    pub fn add(&mut self, label: &str, handler: H)
        requires
            old(self).wf(),
        ensures
            final(self).wf(),
            final(self).state() == add_model(old(self).state(), label@, handler),
    {
        let ghost st = self.state();
        proof {
            lemma_add_keeps_unique(st, label@, handler);
        }
        match self.position(label) {
            Some(i) => {
                if self.lists[i].busy {
                    self.pending.push((to_owned_string(label), handler));
                    assert(self.state().parked =~= st.parked.push((label@, handler)));
                    assert(self.state().lists =~= st.lists);
                } else {
                    let mut list = self.lists.remove(i);
                    list.handlers.push(handler);
                    self.lists.insert(i, list);
                    assert(self.state().lists =~= st.lists.update(i as int, (label@, st.lists[i as int].1.push(handler), false)));
                    assert(self.state().parked =~= st.parked);
                }
            },
            None => {
                let mut handlers: Vec<H> = Vec::new();
                handlers.push(handler);
                self.lists.push(ScopedList { label: to_owned_string(label), handlers, busy: false });
                assert(self.state().lists =~= st.lists.push((label@, seq![handler], false)));
                assert(self.state().parked =~= st.parked);
            },
        }
    }

    /// Starts dispatching to the listeners of `label`: they are handed out, in registration order,
    /// for the caller to run with the event, and must be handed back to
    /// [`ScopedEventListeners::end_dispatch`]. The label must not be dispatching already.
    pub fn begin_dispatch(&mut self, label: &str) -> (r: Vec<H>)
        requires
            old(self).wf(),
            !label_busy(old(self).state().lists, label@),
        ensures
            final(self).wf(),
            final(self).state() == begin_model(old(self).state(), label@),
            has_label(old(self).state().lists, label@) ==> r@ == old(self).state().lists[label_position(old(self).state().lists, label@)].1,
            !has_label(old(self).state().lists, label@) ==> r@.len() == 0,
    {
        let ghost st = self.state();
        match self.position(label) {
            Some(i) => {
                let mut list = self.lists.remove(i);
                let mut handlers: Vec<H> = Vec::new();
                std::mem::swap(&mut handlers, &mut list.handlers);
                list.busy = true;
                self.lists.insert(i, list);
                assert(self.state().lists =~= st.lists.update(i as int, (label@, Seq::empty(), true)));
                assert(self.state().parked =~= st.parked);
                proof {
                    let l = self.state().lists;
                    assert forall|a: int, b: int| 0 <= a < l.len() && 0 <= b < l.len() && a != b implies (#[trigger] l[a]).0 != (#[trigger] l[b]).0 by {
                        assert(st.lists[a].0 == l[a].0 && st.lists[b].0 == l[b].0);
                    }
                }
                handlers
            },
            None => Vec::new(),
        }
    }

    /// Ends a dispatch of `label` begun with [`ScopedEventListeners::begin_dispatch`]: its
    /// `handlers` go back to the label's list, unless that list was removed meanwhile, and the
    /// registrations parked meanwhile are made, in order.
    pub fn end_dispatch(&mut self, label: &str, handlers: Vec<H>)
        requires
            old(self).wf(),
        ensures
            final(self).wf(),
            final(self).state() == end_model(old(self).state(), label@, handlers@),
    {
        let ghost st = self.state();
        let ghost restored_lists = if label_busy(st.lists, label@) {
            st.lists.update(label_position(st.lists, label@), (label@, handlers@, false))
        } else {
            st.lists
        };
        match self.position(label) {
            Some(i) => {
                if self.lists[i].busy {
                    let mut list = self.lists.remove(i);
                    list.handlers = handlers;
                    list.busy = false;
                    self.lists.insert(i, list);
                }
            },
            None => {},
        }
        assert(self.state().lists =~= restored_lists);
        proof {
            let l = self.state().lists;
            assert forall|a: int, b: int| 0 <= a < l.len() && 0 <= b < l.len() && a != b implies (#[trigger] l[a]).0 != (#[trigger] l[b]).0 by {
                assert(st.lists[a].0 == l[a].0 && st.lists[b].0 == l[b].0);
            }
        }
        let mut parked: Vec<(String, H)> = Vec::new();
        std::mem::swap(&mut parked, &mut self.pending);
        let ghost adds = st.parked;
        let ghost start = ScopedState { lists: restored_lists, parked: Seq::<(Seq<char>, H)>::empty() };
        assert(self.state().parked =~= Seq::<(Seq<char>, H)>::empty());
        assert(parked@.map_values(|p: (String, H)| (p.0@, p.1)) == adds);
        let mut done: usize = 0;
        let total: usize = parked.len();
        assert(parked@.map_values(|p: (String, H)| (p.0@, p.1)).len() == parked@.len());
        assert(adds.len() == total);
        assert(adds.take(0) =~= Seq::<(Seq<char>, H)>::empty());
        while parked.len() > 0
            invariant
                self.wf(),
                done <= adds.len(),
                adds.len() <= usize::MAX,
                parked@.map_values(|p: (String, H)| (p.0@, p.1)) == adds.skip(done as int),
                self.state() == apply_adds(start, adds.take(done as int)),
            decreases parked@.len(),
        {
            assert(parked@.map_values(|p: (String, H)| (p.0@, p.1)).len() == parked@.len());
            assert(parked@.len() == adds.len() - done);
            let ghost first = parked@[0];
            let ghost old_parked = parked@;
            assert(adds.skip(done as int)[0] == (first.0@, first.1));
            let (l, h) = parked.remove(0);
            assert(parked@ =~= old_parked.subrange(1, old_parked.len() as int));
            assert forall|k: int| 0 <= k < parked@.len() implies parked@.map_values(|p: (String, H)| (p.0@, p.1))[k] == #[trigger] adds.skip(done + 1)[k] by {
                assert(parked@[k] == old_parked[k + 1]);
                assert(old_parked.map_values(|p: (String, H)| (p.0@, p.1))[k + 1] == adds.skip(done as int)[k + 1]);
            }
            assert(adds[done as int] == (l@, h));
            assert(adds.take(done + 1).drop_last() =~= adds.take(done as int));
            assert(adds.take(done + 1).last() == adds[done as int]);
            self.add(l.as_str(), h);
            done += 1;
            assert(parked@.map_values(|p: (String, H)| (p.0@, p.1)) =~= adds.skip(done as int));
        }
        assert(adds.take(done as int) =~= adds);
    }

    /// Drops the listeners of `label`. A dispatch of that label that is running keeps its
    /// handlers, and drops them when it ends.
    pub fn remove(&mut self, label: &str)
        requires
            old(self).wf(),
        ensures
            final(self).wf(),
            final(self).state() == remove_model(old(self).state(), label@),
    {
        let ghost st = self.state();
        match self.position(label) {
            Some(i) => {
                let _removed = self.lists.remove(i);
                assert(self.state().lists =~= st.lists.remove(i as int));
                assert(self.state().parked =~= st.parked);
                proof {
                    let l = self.state().lists;
                    assert forall|a: int, b: int| 0 <= a < l.len() && 0 <= b < l.len() && a != b implies (#[trigger] l[a]).0 != (#[trigger] l[b]).0 by {
                        let a2 = if a < i { a } else { a + 1 };
                        let b2 = if b < i { b } else { b + 1 };
                        assert(st.lists[a2].0 == l[a].0 && st.lists[b2].0 == l[b].0);
                    }
                }
            },
            None => {},
        }
    }
}

} // verus!
