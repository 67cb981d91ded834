//! The scopes that capabilities attach to commands and plugins: raw values allowed and denied,
//! kept by scope id (a command's scope) and by plugin name (a plugin's global scope), as the
//! capabilities that were added extend them.

use vstd::prelude::*;

use crate::acl::{has_key, key_position, keys_unique, texts};
use crate::text::str_eq;
use std::collections::BTreeMap;

verus! {

/// The entries of a scope, each a raw value (JSON text): those allowed and those denied.
#[derive(Clone, Debug, Default, PartialEq, Eq)]
pub struct ResolvedScope {
    pub allow: Vec<String>,
    pub deny: Vec<String>,
}

/// The model of a scope: the allowed and the denied texts.
pub type ScopeModel = (Seq<Seq<char>>, Seq<Seq<char>>);

/// The model of a [`ResolvedScope`].
pub open spec fn scope_model(s: ResolvedScope) -> ScopeModel {
    (texts(s.allow@), texts(s.deny@))
}

/// `extra` appended to the scope `base` (when there is one): allowed to allowed, denied to denied.
pub open spec fn scope_appended(base: Option<ScopeModel>, extra: ScopeModel) -> ScopeModel {
    match base {
        Some(b) => (b.0 + extra.0, b.1 + extra.1),
        None => extra,
    }
}

/// The value of `key`, if the map has one.
pub open spec fn entry_of<K, V>(m: Map<K, V>, key: K) -> Option<V> {
    if m.contains_key(key) {
        Some(m[key])
    } else {
        None
    }
}

/// The global scopes after extending, in turn, the scope of each plugin of `entries` by its scope.
pub open spec fn globals_extended(m: Map<Seq<char>, ScopeModel>, entries: Seq<(String, ResolvedScope)>) -> Map<Seq<char>, ScopeModel>
    decreases entries.len(),
{
    if entries.len() == 0 {
        m
    } else {
        let prev = globals_extended(m, entries.drop_last());
        let (plugin, scope) = entries.last();
        prev.insert(plugin@, scope_appended(entry_of(prev, plugin@), scope_model(scope)))
    }
}

/// The command scopes after extending, in turn, the scope of each id of `refs` by that id's scope
/// in `source`.
pub open spec fn commands_extended(m: Map<u64, ScopeModel>, refs: Seq<u64>, source: Map<u64, ScopeModel>) -> Map<u64, ScopeModel>
    decreases refs.len(),
{
    if refs.len() == 0 {
        m
    } else {
        let prev = commands_extended(m, refs.drop_last(), source);
        let id = refs.last();
        prev.insert(id, scope_appended(entry_of(prev, id), source[id]))
    }
}

/// The scopes of global entries, by plugin name.
pub open spec fn globals_view(entries: Seq<(String, ResolvedScope)>) -> Map<Seq<char>, ScopeModel> {
    Map::new(|k: Seq<char>| has_key(entries, k), |k: Seq<char>| scope_model(entries[key_position(entries, k)].1))
}

/// The scopes of a map by scope id.
pub open spec fn ids_view(m: Map<u64, ResolvedScope>) -> Map<u64, ScopeModel> {
    m.map_values(|s: ResolvedScope| scope_model(s))
}

/// A copy of a list of texts.
fn copy_texts(v: &Vec<String>) -> (r: Vec<String>)
    ensures
        texts(r@) == texts(v@),
{
    let mut r: Vec<String> = Vec::new();
    let mut i: usize = 0;
    while i < v.len()
        invariant
            i <= v@.len(),
            texts(r@) == texts(v@.take(i as int)),
        decreases v@.len() - i,
    {
        r.push(v[i].clone());
        assert(texts(v@.take(i + 1)) =~= texts(v@.take(i as int)).push(v@[i as int]@));
        assert(texts(r@) =~= texts(v@.take(i + 1)));
        i += 1;
    }
    assert(v@.take(v@.len() as int) =~= v@);
    r
}

/// `extra` appended to `base`, when there is one.
fn appended(base: Option<&ResolvedScope>, extra: &ResolvedScope) -> (r: ResolvedScope)
    ensures
        scope_model(r) == scope_appended(match base {
            Some(b) => Some(scope_model(*b)),
            None => None,
        }, scope_model(*extra)),
{
    let mut allow = match base {
        Some(b) => copy_texts(&b.allow),
        None => Vec::new(),
    };
    let mut deny = match base {
        Some(b) => copy_texts(&b.deny),
        None => Vec::new(),
    };
    let ghost allow0 = allow@;
    let ghost deny0 = deny@;
    let mut more_allow = copy_texts(&extra.allow);
    let mut more_deny = copy_texts(&extra.deny);
    let ghost allow1 = more_allow@;
    let ghost deny1 = more_deny@;
    allow.append(&mut more_allow);
    deny.append(&mut more_deny);
    assert(texts(allow@) =~= texts(allow0) + texts(allow1));
    assert(texts(deny@) =~= texts(deny0) + texts(deny1));
    ResolvedScope { allow, deny }
}

/// The position of `key` among the entries, if present.
fn global_position(entries: &Vec<(String, ResolvedScope)>, key: &str) -> (r: Option<usize>)
    ensures
        r matches Some(j) ==> j < entries@.len() && entries@[j as int].0@ == key@,
        r is None ==> !has_key(entries@, key@),
{
    let mut i: usize = 0;
    while i < entries.len()
        invariant
            i <= entries@.len(),
            forall|j: int| 0 <= j < i ==> (#[trigger] entries@[j]).0@ != key@,
        decreases entries@.len() - i,
    {
        if str_eq(entries[i].0.as_str(), key) {
            return Some(i);
        }
        i += 1;
    }
    None
}

/// With unique keys, the position of a key is where it stands.
proof fn lemma_unique_position(entries: Seq<(String, ResolvedScope)>, key: Seq<char>, j: int)
    requires
        keys_unique(entries),
        0 <= j < entries.len(),
        entries[j].0@ == key,
    ensures
        has_key(entries, key),
        key_position(entries, key) == j,
{
    assert(entries[j].0@ == key);
    let p = key_position(entries, key);
    assert(0 <= p < entries.len() && entries[p].0@ == key);
}

/// The scopes capabilities attach: by scope id the commands' scopes, by plugin name (each once)
/// the plugins' global scopes.
pub struct ScopeManager {
    command_scope: BTreeMap<u64, ResolvedScope>,
    global_scope: Vec<(String, ResolvedScope)>,
}

impl ScopeManager {
    /// Each plugin name has one global scope.
    pub closed spec fn wf(&self) -> bool {
        keys_unique(self.global_scope@)
    }

    /// The commands' scopes, by scope id.
    pub closed spec fn command_scopes(&self) -> Map<u64, ScopeModel> {
        ids_view(self.command_scope@)
    }

    /// The plugins' global scopes, by plugin name.
    pub closed spec fn global_scopes(&self) -> Map<Seq<char>, ScopeModel> {
        globals_view(self.global_scope@)
    }

    /// The scopes of a resolved access control list: its command scopes and its global scopes
    /// (each plugin once).
    pub fn new(command_scope: BTreeMap<u64, ResolvedScope>, global_scope: Vec<(String, ResolvedScope)>) -> (r: Self)
        requires
            keys_unique(global_scope@),
        ensures
            r.wf(),
            r.command_scopes() == ids_view(command_scope@),
            r.global_scopes() == globals_view(global_scope@),
    {
        ScopeManager { command_scope, global_scope }
    }

    /// The scope of the scope id `id`, if any.
    pub fn command_scope(&self, id: u64) -> (r: Option<&ResolvedScope>)
        ensures
            r is Some <==> self.command_scopes().contains_key(id),
            r matches Some(s) ==> scope_model(*s) == self.command_scopes()[id],
    {
        self.command_scope.get(&id)
    }

    /// The global scope of the plugin `plugin`, if any.
    pub fn global_scope(&self, plugin: &str) -> (r: Option<&ResolvedScope>)
        requires
            self.wf(),
        ensures
            r is Some <==> self.global_scopes().contains_key(plugin@),
            r matches Some(s) ==> scope_model(*s) == self.global_scopes()[plugin@],
    {
        match global_position(&self.global_scope, plugin) {
            Some(j) => {
                proof {
                    lemma_unique_position(self.global_scope@, plugin@, j as int);
                }
                Some(&self.global_scope[j].1)
            },
            None => None,
        }
    }

    /// Appends `extra` to the global scope of `plugin` (creating it when missing).
    pub fn extend_global(&mut self, plugin: &str, extra: &ResolvedScope)
        requires
            old(self).wf(),
        ensures
            final(self).wf(),
            final(self).command_scopes() == old(self).command_scopes(),
            final(self).global_scopes() == old(self).global_scopes().insert(
                plugin@,
                scope_appended(entry_of(old(self).global_scopes(), plugin@), scope_model(*extra)),
            ),
    {
        let ghost before = self.global_scope@;
        let ghost key = plugin@;
        match global_position(&self.global_scope, plugin) {
            Some(j) => {
                proof {
                    lemma_unique_position(before, key, j as int);
                }
                let combined = appended(Some(&self.global_scope[j].1), extra);
                let name = self.global_scope[j].0.clone();
                self.global_scope.set(j, (name, combined));
                proof {
                    let after = self.global_scope@;
                    assert(keys_unique(after)) by {
                        assert forall|a: int, b: int| 0 <= a < after.len() && 0 <= b < after.len() && a != b
                            implies (#[trigger] after[a]).0@ != (#[trigger] after[b]).0@ by {
                            assert(a != j ==> after[a] == before[a]);
                            assert(b != j ==> after[b] == before[b]);
                        }
                    }
                    assert forall|k: Seq<char>| #[trigger] has_key(after, k) <==> has_key(before, k) by {
                        if has_key(after, k) {
                            let i = choose|i: int| 0 <= i < after.len() && (#[trigger] after[i]).0@ == k;
                            assert(before[i].0@ == k);
                        }
                        if has_key(before, k) {
                            let i = choose|i: int| 0 <= i < before.len() && (#[trigger] before[i]).0@ == k;
                            assert(after[i].0@ == k);
                        }
                    }
                    assert forall|k: Seq<char>| has_key(after, k) implies #[trigger] scope_model(after[key_position(after, k)].1)
                        == (if k == key { scope_appended(entry_of(globals_view(before), key), scope_model(*extra)) } else { scope_model(before[key_position(before, k)].1) }) by {
                        let i = key_position(after, k);
                        assert(0 <= i < after.len() && after[i].0@ == k);
                        lemma_unique_position(before, before[i].0@, i);
                        if k == key {
                            lemma_unique_position(after, key, j as int);
                        }
                    }
                    assert(self.global_scopes() =~= globals_view(before).insert(key, scope_appended(entry_of(globals_view(before), key), scope_model(*extra))));
                }
            },
            None => {
                let combined = appended(None, extra);
                self.global_scope.push((String::from_str(plugin), combined));
                proof {
                    let after = self.global_scope@;
                    let n = before.len() as int;
                    assert(after[n].0@ == key);
                    assert(keys_unique(after)) by {
                        assert forall|a: int, b: int| 0 <= a < after.len() && 0 <= b < after.len() && a != b
                            implies (#[trigger] after[a]).0@ != (#[trigger] after[b]).0@ by {
                            assert(a < n ==> after[a] == before[a]);
                            assert(b < n ==> after[b] == before[b]);
                        }
                    }
                    assert forall|k: Seq<char>| #[trigger] has_key(after, k) <==> has_key(before, k) || k == key by {
                        if has_key(after, k) {
                            let i = choose|i: int| 0 <= i < after.len() && (#[trigger] after[i]).0@ == k;
                            if i < n {
                                assert(before[i].0@ == k);
                            }
                        }
                        if has_key(before, k) {
                            let i = choose|i: int| 0 <= i < before.len() && (#[trigger] before[i]).0@ == k;
                            assert(after[i].0@ == k);
                        }
                    }
                    assert forall|k: Seq<char>| has_key(after, k) implies #[trigger] scope_model(after[key_position(after, k)].1)
                        == (if k == key { scope_model(combined) } else { scope_model(before[key_position(before, k)].1) }) by {
                        let i = key_position(after, k);
                        assert(0 <= i < after.len() && after[i].0@ == k);
                        if i < n {
                            lemma_unique_position(before, k, i);
                        }
                    }
                    assert(self.global_scopes() =~= globals_view(before).insert(key, scope_appended(entry_of(globals_view(before), key), scope_model(*extra))));
                }
            },
        }
    }

    /// Appends `extra` to the scope of the scope id `id` (creating it when missing).
    pub fn extend_command(&mut self, id: u64, extra: &ResolvedScope)
        ensures
            final(self).global_scopes() == old(self).global_scopes(),
            final(self).wf() == old(self).wf(),
            final(self).command_scopes() == old(self).command_scopes().insert(
                id,
                scope_appended(entry_of(old(self).command_scopes(), id), scope_model(*extra)),
            ),
    {
        let combined = appended(self.command_scope.get(&id), extra);
        let _previous = self.command_scope.insert(id, combined);
        assert(self.command_scopes() =~= old(self).command_scopes().insert(
            id,
            scope_appended(entry_of(old(self).command_scopes(), id), scope_model(*extra)),
        ));
    }

    /// Extends, in turn, the global scope of each plugin of `entries` by its scope.
    pub fn extend_globals(&mut self, entries: &Vec<(String, ResolvedScope)>)
        requires
            old(self).wf(),
        ensures
            final(self).wf(),
            final(self).command_scopes() == old(self).command_scopes(),
            final(self).global_scopes() == globals_extended(old(self).global_scopes(), entries@),
    {
        let ghost start = self.global_scopes();
        let mut i: usize = 0;
        assert(entries@.take(0) =~= Seq::<(String, ResolvedScope)>::empty());
        while i < entries.len()
            invariant
                i <= entries@.len(),
                self.wf(),
                self.command_scopes() == old(self).command_scopes(),
                start == old(self).global_scopes(),
                self.global_scopes() == globals_extended(start, entries@.take(i as int)),
            decreases entries@.len() - i,
        {
            self.extend_global(entries[i].0.as_str(), &entries[i].1);
            assert(entries@.take(i + 1).drop_last() =~= entries@.take(i as int));
            assert(entries@.take(i + 1).last() == entries@[i as int]);
            i += 1;
        }
        assert(entries@.take(i as int) =~= entries@);
    }

    /// Extends, in turn, the scope of each id of `refs` by that id's scope in `source`, which
    /// holds a scope for each of them.
    pub fn extend_commands(&mut self, refs: &Vec<u64>, source: &BTreeMap<u64, ResolvedScope>)
        requires
            forall|i: int| 0 <= i < refs@.len() ==> source@.contains_key(#[trigger] refs@[i]),
        ensures
            final(self).global_scopes() == old(self).global_scopes(),
            final(self).wf() == old(self).wf(),
            final(self).command_scopes() == commands_extended(old(self).command_scopes(), refs@, ids_view(source@)),
    {
        let ghost start = self.command_scopes();
        let mut i: usize = 0;
        assert(refs@.take(0) =~= Seq::<u64>::empty());
        while i < refs.len()
            invariant
                i <= refs@.len(),
                forall|j: int| 0 <= j < refs@.len() ==> source@.contains_key(#[trigger] refs@[j]),
                self.global_scopes() == old(self).global_scopes(),
                self.wf() == old(self).wf(),
                start == old(self).command_scopes(),
                self.command_scopes() == commands_extended(start, refs@.take(i as int), ids_view(source@)),
            decreases refs@.len() - i,
        {
            let id = refs[i];
            assert(source@.contains_key(refs@[i as int]));
            match source.get(&id) {
                Some(extra) => self.extend_command(id, extra),
                None => {},
            }
            assert(refs@.take(i + 1).drop_last() =~= refs@.take(i as int));
            assert(refs@.take(i + 1).last() == id);
            i += 1;
        }
        assert(refs@.take(i as int) =~= refs@);
    }
}

} // verus!
