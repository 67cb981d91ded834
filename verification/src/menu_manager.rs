//! The menus of an app: the app-wide menu, the menus kept for windows by id, and the handlers
//! of menu events.

use vstd::prelude::*;

use crate::text::str_eq;

verus! {

/// The menus of an app, over a menu type `M` and a menu event handler type `H`.
pub struct MenuManager<M, H> {
    menus: Vec<(String, M)>,
    menu: Option<(String, M)>,
    global_event_listeners: Vec<H>,
}

/// The entries of a keyed list as a map (each key once).
pub open spec fn keyed_map<M>(entries: Seq<(String, M)>) -> Map<Seq<char>, M>
    decreases entries.len(),
{
    if entries.len() == 0 {
        Map::empty()
    } else {
        keyed_map(entries.drop_last()).insert(entries.last().0@, entries.last().1)
    }
}

/// No key occurs twice.
pub open spec fn distinct_keys<M>(entries: Seq<(String, M)>) -> bool {
    forall|i: int, j: int| 0 <= i < j < entries.len() ==> (#[trigger] entries[i]).0@ != (#[trigger] entries[j]).0@
}

proof fn lemma_keyed_map_contains<M>(entries: Seq<(String, M)>, key: Seq<char>)
    requires
        distinct_keys(entries),
    ensures
        keyed_map(entries).contains_key(key) <==> exists|i: int| 0 <= i < entries.len() && (#[trigger] entries[i]).0@ == key,
        forall|i: int| 0 <= i < entries.len() && (#[trigger] entries[i]).0@ == key ==> keyed_map(entries)[key] == entries[i].1,
    decreases entries.len(),
{
    if entries.len() > 0 {
        let init = entries.drop_last();
        let n = entries.len() - 1;
        assert(distinct_keys(init)) by {
            assert forall|i: int, j: int| 0 <= i < j < init.len() implies (#[trigger] init[i]).0@ != (#[trigger] init[j]).0@ by {
                assert(init[i] == entries[i] && init[j] == entries[j]);
            }
        }
        lemma_keyed_map_contains(init, key);
        if entries[n].0@ == key {
            assert(entries[n].0@ == key);
        } else {
            if keyed_map(entries).contains_key(key) {
                let i = choose|i: int| 0 <= i < init.len() && (#[trigger] init[i]).0@ == key;
                assert(entries[i] == init[i]);
            }
            if exists|i: int| 0 <= i < entries.len() && (#[trigger] entries[i]).0@ == key {
                let i = choose|i: int| 0 <= i < entries.len() && (#[trigger] entries[i]).0@ == key;
                assert(init[i] == entries[i]);
            }
        }
        assert forall|i: int| 0 <= i < entries.len() && (#[trigger] entries[i]).0@ == key implies keyed_map(entries)[key] == entries[i].1 by {
            if i < n {
                assert(init[i] == entries[i]);
                assert(entries[n].0@ != key);
            }
        }
    }
}

/// Removing the entry at `pos` removes its key from the map.
proof fn lemma_keyed_map_remove<M>(entries: Seq<(String, M)>, pos: int)
    requires
        distinct_keys(entries),
        0 <= pos < entries.len(),
    ensures
        keyed_map(entries.remove(pos)) == keyed_map(entries).remove(entries[pos].0@),
        distinct_keys(entries.remove(pos)),
    decreases entries.len(),
{
    let r = entries.remove(pos);
    assert(distinct_keys(r)) by {
        assert forall|i: int, j: int| 0 <= i < j < r.len() implies (#[trigger] r[i]).0@ != (#[trigger] r[j]).0@ by {
            let a = if i < pos { i } else { i + 1 };
            let b = if j < pos { j } else { j + 1 };
            assert(r[i] == entries[a] && r[j] == entries[b]);
        }
    }
    if pos == entries.len() - 1 {
        assert(r =~= entries.drop_last());
        let init = entries.drop_last();
        lemma_keyed_map_contains(init, entries[pos].0@);
        assert(!keyed_map(init).contains_key(entries[pos].0@)) by {
            if keyed_map(init).contains_key(entries[pos].0@) {
                let i = choose|i: int| 0 <= i < init.len() && (#[trigger] init[i]).0@ == entries[pos].0@;
                assert(entries[i].0@ == entries[pos].0@);
            }
        }
        assert(keyed_map(r) =~= keyed_map(entries).remove(entries[pos].0@));
    } else {
        let init = entries.drop_last();
        assert(distinct_keys(init)) by {
            assert forall|i: int, j: int| 0 <= i < j < init.len() implies (#[trigger] init[i]).0@ != (#[trigger] init[j]).0@ by {
                assert(init[i] == entries[i] && init[j] == entries[j]);
            }
        }
        lemma_keyed_map_remove(init, pos);
        assert(r.drop_last() =~= init.remove(pos));
        assert(r.last() == entries.last());
        assert(entries.last().0@ != entries[pos].0@);
        assert(keyed_map(r) =~= keyed_map(entries).remove(entries[pos].0@));
    }
}

impl<M, H> MenuManager<M, H> {
    /// The menus kept for windows, by id.
    pub closed spec fn stash(&self) -> Map<Seq<char>, M> {
        keyed_map(self.menus@)
    }

    /// The app-wide menu and its id, if there is one.
    pub closed spec fn app_menu(&self) -> Option<(Seq<char>, M)> {
        match self.menu {
            Some(m) => Some((m.0@, m.1)),
            None => None,
        }
    }

    /// The handlers of menu events, in the order they were added.
    pub closed spec fn handlers(&self) -> Seq<H> {
        self.global_event_listeners@
    }

    /// Each kept menu has its own id.
    pub closed spec fn wf(&self) -> bool {
        distinct_keys(self.menus@)
    }

    /// No menu and no handler.
    pub fn new() -> (r: Self)
        ensures
            r.wf(),
            r.stash() == Map::<Seq<char>, M>::empty(),
            r.app_menu() is None,
            r.handlers().len() == 0,
    {
        MenuManager { menus: Vec::new(), menu: None, global_event_listeners: Vec::new() }
    }

    /// The app-wide menu and its id.
    pub fn menu_lock(&self) -> (r: Option<(&str, &M)>)
        ensures
            r matches Some(m) ==> self.app_menu() == Some((m.0@, *m.1)),
            r is None ==> self.app_menu() is None,
    {
        match &self.menu {
            Some(m) => Some((m.0.as_str(), &m.1)),
            None => None,
        }
    }

    /// Sets the app-wide menu, giving back the one it replaces.
    pub fn set_menu(&mut self, id: String, menu: M) -> (r: Option<(String, M)>)
        ensures
            final(self).app_menu() == Some((id@, menu)),
            r matches Some(m) ==> old(self).app_menu() == Some((m.0@, m.1)),
            r is None ==> old(self).app_menu() is None,
            final(self).stash() == old(self).stash(),
            final(self).handlers() == old(self).handlers(),
            final(self).wf() == old(self).wf(),
    {
        let mut slot = Some((id, menu));
        std::mem::swap(&mut slot, &mut self.menu);
        slot
    }

    /// Removes the app-wide menu and gives it back.
    pub fn remove_menu(&mut self) -> (r: Option<(String, M)>)
        ensures
            final(self).app_menu() is None,
            r matches Some(m) ==> old(self).app_menu() == Some((m.0@, m.1)),
            r is None ==> old(self).app_menu() is None,
            final(self).stash() == old(self).stash(),
            final(self).handlers() == old(self).handlers(),
            final(self).wf() == old(self).wf(),
    {
        let mut slot: Option<(String, M)> = None;
        std::mem::swap(&mut slot, &mut self.menu);
        slot
    }

    /// The menus kept for windows.
    pub fn menus_stash_lock(&self) -> (r: &Vec<(String, M)>)
        requires
            self.wf(),
        ensures
            distinct_keys(r@),
            keyed_map(r@) == self.stash(),
    {
        &self.menus
    }

    /// Whether the menu `id` is the app-wide menu.
    pub fn is_menu_in_use(&self, id: &str) -> (r: bool)
        ensures
            r == (self.app_menu() matches Some(m) && m.0 == id@),
    {
        match &self.menu {
            Some(m) => str_eq(m.0.as_str(), id),
            None => false,
        }
    }

    fn position(&self, id: &str) -> (r: Option<usize>)
        ensures
            r matches Some(i) ==> i < self.menus@.len() && self.menus@[i as int].0@ == id@,
            r is None ==> forall|i: int| 0 <= i < self.menus@.len() ==> (#[trigger] self.menus@[i]).0@ != id@,
    {
        let mut i: usize = 0;
        while i < self.menus.len()
            invariant
                i <= self.menus@.len(),
                forall|j: int| 0 <= j < i ==> (#[trigger] self.menus@[j]).0@ != id@,
            decreases self.menus@.len() - i,
        {
            if str_eq(self.menus[i].0.as_str(), id) {
                return Some(i);
            }
            i += 1;
        }
        None
    }

    /// Keeps `menu` for windows under `id`, in place of a menu kept under the same id.
    pub fn insert_menu_into_stash(&mut self, id: String, menu: M)
        requires
            old(self).wf(),
        ensures
            final(self).wf(),
            final(self).stash() == old(self).stash().insert(id@, menu),
            final(self).app_menu() == old(self).app_menu(),
            final(self).handlers() == old(self).handlers(),
    {
        let ghost before = self.menus@;
        match self.position(id.as_str()) {
            Some(i) => {
                proof {
                    lemma_keyed_map_remove(before, i as int);
                }
                let _old = self.menus.remove(i);
                let ghost removed = self.menus@;
                self.menus.push((id, menu));
                proof {
                    assert(self.menus@.drop_last() =~= removed);
                    assert(distinct_keys(self.menus@)) by {
                        lemma_keyed_map_contains(removed, id@);
                        assert forall|a: int, b: int| 0 <= a < b < self.menus@.len() implies (#[trigger] self.menus@[a]).0@ != (#[trigger] self.menus@[b]).0@ by {
                            if b == self.menus@.len() - 1 {
                                assert(self.menus@[a] == removed[a]);
                                assert(!keyed_map(removed).contains_key(id@)) by {
                                    assert(keyed_map(removed) == keyed_map(before).remove(before[i as int].0@));
                                }
                            } else {
                                assert(self.menus@[a] == removed[a] && self.menus@[b] == removed[b]);
                            }
                        }
                    }
                    assert(keyed_map(self.menus@) =~= keyed_map(before).insert(id@, menu));
                }
            },
            None => {
                self.menus.push((id, menu));
                proof {
                    assert(self.menus@.drop_last() =~= before);
                    assert(distinct_keys(self.menus@)) by {
                        assert forall|a: int, b: int| 0 <= a < b < self.menus@.len() implies (#[trigger] self.menus@[a]).0@ != (#[trigger] self.menus@[b]).0@ by {
                            assert(self.menus@[a] == before[a]);
                            if b < before.len() {
                                assert(self.menus@[b] == before[b]);
                            }
                        }
                    }
                }
            },
        }
    }

    /// Drops the menu `id` from the menus kept for windows, unless it is the app-wide menu or a
    /// window uses it (`used_by_a_window`); nothing happens without an id.
    pub fn remove_menu_from_stash_by_id(&mut self, id: Option<&str>, used_by_a_window: bool)
        requires
            old(self).wf(),
        ensures
            final(self).wf(),
            final(self).app_menu() == old(self).app_menu(),
            final(self).handlers() == old(self).handlers(),
            final(self).stash() == (match id {
                Some(i) => if (old(self).app_menu() matches Some(m) && m.0 == i@) || used_by_a_window {
                    old(self).stash()
                } else {
                    old(self).stash().remove(i@)
                },
                None => old(self).stash(),
            }),
    {
        if let Some(id) = id {
            if !(self.is_menu_in_use(id) || used_by_a_window) {
                let ghost before = self.menus@;
                match self.position(id) {
                    Some(i) => {
                        proof {
                            lemma_keyed_map_remove(before, i as int);
                        }
                        let _removed = self.menus.remove(i);
                    },
                    None => {
                        proof {
                            lemma_keyed_map_contains(before, id@);
                            assert(keyed_map(before).remove(id@) =~= keyed_map(before));
                        }
                    },
                }
            }
        }
    }

    /// Adds a handler of the menu events of every window.
    pub fn on_menu_event(&mut self, handler: H)
        ensures
            final(self).handlers() == old(self).handlers().push(handler),
            final(self).stash() == old(self).stash(),
            final(self).app_menu() == old(self).app_menu(),
            final(self).wf() == old(self).wf(),
    {
        self.global_event_listeners.push(handler);
    }

    /// The handlers of menu events, in the order they were added.
    pub fn global_event_listeners(&self) -> (r: &Vec<H>)
        ensures
            r@ == self.handlers(),
    {
        &self.global_event_listeners
    }
}

} // verus!
