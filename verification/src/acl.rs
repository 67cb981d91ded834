//! The runtime authority: decides, from the resolved access control list, whether a frontend
//! command may run for a given window, webview and origin.

use vstd::prelude::*;

use crate::glob_pattern::{glob_matches, GlobPattern};
use crate::text::{chars_of, concat, str_eq, string_of, push_char, last_index_of, rfind_char};
use crate::url_pattern::{remote_url_matches, RemoteUrlPattern};
use crate::acl_scope::{commands_extended, globals_extended, globals_view, ids_view, scope_model, ResolvedScope, ScopeManager, ScopeModel};
use std::collections::BTreeMap;

verus! {

/// The key of the application's own commands in the ACL.
pub const APP_ACL_KEY: &'static str = "__app-acl__";

/// Where a capability lets a command be called from.
#[derive(Clone, Debug, PartialEq, Eq, Default)]
pub enum ExecutionContext {
    /// The app's own (local) frontend.
    #[default]
    Local,
    /// Remote pages whose URL matches the pattern.
    Remote { url: RemoteUrlPattern },
}

/// The model of an [`ExecutionContext`]: a remote context by its pattern text.
pub enum ContextModel {
    Local,
    Remote(Seq<char>),
}

impl View for ExecutionContext {
    type V = ContextModel;

    open spec fn view(&self) -> ContextModel {
        match self {
            ExecutionContext::Local => ContextModel::Local,
            ExecutionContext::Remote { url } => ContextModel::Remote(url@),
        }
    }
}

impl ExecutionContext {
    /// A copy of this context.
    pub fn duplicate(&self) -> (r: ExecutionContext)
        ensures
            r@ == self@,
    {
        match self {
            ExecutionContext::Local => ExecutionContext::Local,
            ExecutionContext::Remote { url } => ExecutionContext::Remote { url: url.duplicate() },
        }
    }
}

/// The capability and permission that granted (or denied) a command.
#[derive(Clone, Debug, PartialEq, Eq, Default)]
pub struct ResolvedCommandReference {
    pub capability: String,
    pub permission: String,
}

/// One grant (or denial) of a command.
#[derive(Clone, Debug, PartialEq, Eq, Default)]
pub struct ResolvedCommand {
    /// What granted it.
    pub referenced_by: ResolvedCommandReference,
    /// Where it may be called from.
    pub context: ExecutionContext,
    /// The window labels it applies to.
    pub windows: Vec<GlobPattern>,
    /// The webview labels it applies to.
    pub webviews: Vec<GlobPattern>,
    /// The scope attached to it.
    pub scope_id: Option<u64>,
}

/// The model of a [`ResolvedCommand`].
pub struct CommandModel {
    pub capability: Seq<char>,
    pub permission: Seq<char>,
    pub context: ContextModel,
    pub windows: Seq<Seq<char>>,
    pub webviews: Seq<Seq<char>>,
    pub scope_id: Option<u64>,
}

/// The texts of a list of patterns.
pub open spec fn pattern_texts(ps: Seq<GlobPattern>) -> Seq<Seq<char>> {
    ps.map_values(|p: GlobPattern| p@)
}

impl View for ResolvedCommand {
    type V = CommandModel;

    open spec fn view(&self) -> CommandModel {
        CommandModel {
            capability: self.referenced_by.capability@,
            permission: self.referenced_by.permission@,
            context: self.context@,
            windows: pattern_texts(self.windows@),
            webviews: pattern_texts(self.webviews@),
            scope_id: self.scope_id,
        }
    }
}

/// The models of a list of commands.
pub open spec fn command_models(cs: Seq<ResolvedCommand>) -> Seq<CommandModel> {
    cs.map_values(|c: ResolvedCommand| c@)
}

/// A copy of a list of patterns.
pub fn duplicate_patterns(ps: &Vec<GlobPattern>) -> (r: Vec<GlobPattern>)
    ensures
        pattern_texts(r@) == pattern_texts(ps@),
{
    let mut r: Vec<GlobPattern> = Vec::new();
    let mut i: usize = 0;
    while i < ps.len()
        invariant
            i <= ps@.len(),
            pattern_texts(r@) == pattern_texts(ps@.take(i as int)),
        decreases ps@.len() - i,
    {
        r.push(ps[i].duplicate());
        assert(pattern_texts(ps@.take(i + 1)) =~= pattern_texts(ps@.take(i as int)).push(ps@[i as int]@));
        assert(pattern_texts(r@) =~= pattern_texts(ps@.take(i + 1)));
        i += 1;
    }
    assert(ps@.take(ps@.len() as int) =~= ps@);
    r
}

impl ResolvedCommand {
    /// A copy of this command.
    pub fn duplicate(&self) -> (r: ResolvedCommand)
        ensures
            r@ == self@,
    {
        ResolvedCommand {
            referenced_by: ResolvedCommandReference {
                capability: self.referenced_by.capability.clone(),
                permission: self.referenced_by.permission.clone(),
            },
            context: self.context.duplicate(),
            windows: duplicate_patterns(&self.windows),
            webviews: duplicate_patterns(&self.webviews),
            scope_id: self.scope_id,
        }
    }
}

/// The origin of a page that calls a command.
#[derive(Clone, Debug, PartialEq, Eq)]
pub enum Origin {
    /// The app's own frontend.
    Local,
    /// A remote page, by its URL.
    Remote { url: String },
}

/// Whether an origin falls in an execution context.
pub open spec fn origin_matches(origin: Origin, context: ContextModel) -> bool {
    match (origin, context) {
        (Origin::Local, ContextModel::Local) => true,
        (Origin::Remote { url }, ContextModel::Remote(pattern)) => remote_url_matches(pattern, url@),
        _ => false,
    }
}

impl Origin {
    /// Whether this origin falls in `context`.
    pub fn matches(&self, context: &ExecutionContext) -> (r: bool)
        ensures
            r == origin_matches(*self, context@),
    {
        match (self, context) {
            (Origin::Local, ExecutionContext::Local) => true,
            (Origin::Remote { url }, ExecutionContext::Remote { url: pattern }) => pattern.test(url.as_str()),
            _ => false,
        }
    }

    /// The origin as text: `local`, or `remote: ` and the URL.
    pub fn to_display_string(&self) -> (r: String)
        ensures
            r@ == origin_text(*self),
    {
        match self {
            Origin::Local => String::from_str("local"),
            Origin::Remote { url } => concat("remote: ", url.as_str()),
        }
    }
}

/// The text of an origin.
pub open spec fn origin_text(origin: Origin) -> Seq<char> {
    match origin {
        Origin::Local => "local"@,
        Origin::Remote { url } => "remote: "@ + url@,
    }
}

/// Whether one of the patterns matches the label (default glob options).
pub open spec fn any_label_matches(patterns: Seq<Seq<char>>, label: Seq<char>) -> bool {
    exists|i: int| 0 <= i < patterns.len() && glob_matches(#[trigger] patterns[i], label, true, false, false)
}

/// Whether a grant lets the command run for the window, webview and origin: the origin falls in
/// its context, and its webview patterns match the webview or its window patterns match the window.
pub open spec fn grant_applies(c: CommandModel, window: Seq<char>, webview: Seq<char>, origin: Origin) -> bool {
    origin_matches(origin, c.context) && (any_label_matches(c.webviews, webview)
        || any_label_matches(c.windows, window))
}

/// Whether one of the patterns matches `label`.
pub fn any_pattern_matches(patterns: &Vec<GlobPattern>, label: &str) -> (r: bool)
    ensures
        r == any_label_matches(pattern_texts(patterns@), label@),
{
    let mut i: usize = 0;
    while i < patterns.len()
        invariant
            i <= patterns@.len(),
            forall|j: int| 0 <= j < i ==> !glob_matches(#[trigger] pattern_texts(patterns@)[j], label@, true, false, false),
        decreases patterns@.len() - i,
    {
        if patterns[i].matches(label) {
            assert(pattern_texts(patterns@)[i as int] == patterns@[i as int]@);
            return true;
        }
        i += 1;
    }
    false
}

impl ResolvedCommand {
    /// Whether this grant lets the command run for the window, webview and origin.
    pub fn applies_to(&self, window: &str, webview: &str, origin: &Origin) -> (r: bool)
        ensures
            r == grant_applies(self@, window@, webview@, *origin),
    {
        origin.matches(&self.context) && (any_pattern_matches(&self.webviews, webview)
            || any_pattern_matches(&self.windows, window))
    }
}

// ---------------------------------------------------------------------------------------------
// command maps
// ---------------------------------------------------------------------------------------------

/// Whether some entry has the key.
pub open spec fn has_key<V>(entries: Seq<(String, V)>, key: Seq<char>) -> bool {
    exists|j: int| 0 <= j < entries.len() && (#[trigger] entries[j]).0@ == key
}

/// The position of the entry with the key (meaningful when [`has_key`]).
pub open spec fn key_position<V>(entries: Seq<(String, V)>, key: Seq<char>) -> int {
    choose|j: int| 0 <= j < entries.len() && (#[trigger] entries[j]).0@ == key
}

/// No two entries share a key.
pub open spec fn keys_unique<V>(entries: Seq<(String, V)>) -> bool {
    forall|i: int, j: int|
        0 <= i < entries.len() && 0 <= j < entries.len() && i != j ==> (#[trigger] entries[i]).0@
            != (#[trigger] entries[j]).0@
}

/// The position of `key` in `entries`, if present.
fn position_of<V>(entries: &Vec<(String, V)>, key: &str) -> (r: Option<usize>)
    ensures
        r matches Some(j) ==> j < entries@.len() && entries@[j as int].0@ == key@,
        r is None ==> !has_key(entries@, key@),
{
    let mut i: usize = 0;
    while i < entries.len()
        invariant
            i <= entries@.len(),
            forall|j: int| 0 <= j < i ==> (#[trigger] entries@[j]).0@ != key@,
        decreases entries@.len() - i,
    {
        if str_eq(entries[i].0.as_str(), key) {
            return Some(i);
        }
        i += 1;
    }
    None
}

/// A map from command names to the grants (or denials) of the command, each name once.
#[derive(Clone, Debug, Default)]
pub struct CommandMap {
    entries: Vec<(String, Vec<ResolvedCommand>)>,
}

impl View for CommandMap {
    type V = Map<Seq<char>, Seq<CommandModel>>;

    closed spec fn view(&self) -> Map<Seq<char>, Seq<CommandModel>> {
        entries_view(self.entries@)
    }
}

impl CommandMap {
    /// Each command name occurs once.
    pub closed spec fn wf(&self) -> bool {
        keys_unique(self.entries@)
    }

    /// The empty map.
    pub fn new() -> (r: CommandMap)
        ensures
            r.wf(),
            r@ == Map::<Seq<char>, Seq<CommandModel>>::empty(),
    {
        let r = CommandMap { entries: Vec::new() };
        assert(r@ =~= Map::<Seq<char>, Seq<CommandModel>>::empty());
        r
    }

    proof fn lemma_position(&self, key: Seq<char>, j: int)
        requires
            self.wf(),
            0 <= j < self.entries@.len(),
            self.entries@[j].0@ == key,
        ensures
            self@.contains_key(key),
            self@[key] == command_models(self.entries@[j].1@),
    {
        let k = key_position(self.entries@, key);
        assert(has_key(self.entries@, key));
        assert(self.entries@[k].0@ == key);
    }

    /// The grants of `command`, if it has an entry.
    pub fn get(&self, command: &str) -> (r: Option<&Vec<ResolvedCommand>>)
        requires
            self.wf(),
        ensures
            r is Some <==> self@.contains_key(command@),
            r matches Some(v) ==> command_models(v@) == self@[command@],
    {
        match position_of(&self.entries, command) {
            Some(j) => {
                proof {
                    self.lemma_position(command@, j as int);
                }
                Some(&self.entries[j].1)
            },
            None => None,
        }
    }

    /// Sets the grants of `command`, replacing what it had.
    pub fn insert(&mut self, command: String, grants: Vec<ResolvedCommand>)
        requires
            old(self).wf(),
        ensures
            final(self).wf(),
            final(self)@ == old(self)@.insert(command@, command_models(grants@)),
    {
        let ghost key = command@;
        let ghost value = command_models(grants@);
        match position_of(&self.entries, command.as_str()) {
            Some(j) => {
                let ghost before = self.entries@;
                self.entries.set(j, (command, grants));
                proof {
                    assert(keys_unique(self.entries@)) by {
                        assert forall|a: int, b: int|
                            0 <= a < self.entries@.len() && 0 <= b < self.entries@.len() && a != b
                            implies (#[trigger] self.entries@[a]).0@ != (#[trigger] self.entries@[b]).0@ by {
                            if a != j && b != j {
                                assert(before[a] == self.entries@[a] && before[b] == self.entries@[b]);
                            } else if a == j {
                                assert(before[b] == self.entries@[b]);
                                assert(before[j as int].0@ == key);
                            } else {
                                assert(before[a] == self.entries@[a]);
                                assert(before[j as int].0@ == key);
                            }
                        }
                    }
                    self.lemma_map_after_set(before, j as int, key, value);
                }
            },
            None => {
                let ghost before = self.entries@;
                self.entries.push((command, grants));
                proof {
                    assert(keys_unique(self.entries@)) by {
                        assert forall|a: int, b: int|
                            0 <= a < self.entries@.len() && 0 <= b < self.entries@.len() && a != b
                            implies (#[trigger] self.entries@[a]).0@ != (#[trigger] self.entries@[b]).0@ by {
                            if a < before.len() && b < before.len() {
                                assert(before[a] == self.entries@[a] && before[b] == self.entries@[b]);
                            } else if a < before.len() {
                                assert(before[a] == self.entries@[a]);
                            } else {
                                assert(before[b] == self.entries@[b]);
                            }
                        }
                    }
                    assert(self.entries@.drop_last() =~= before);
                    self.lemma_map_after_push(before, key, value);
                }
            },
        }
    }

    proof fn lemma_map_after_set(&self, before: Seq<(String, Vec<ResolvedCommand>)>, j: int, key: Seq<char>, value: Seq<CommandModel>)
        requires
            self.wf(),
            keys_unique(before),
            0 <= j < before.len(),
            before[j].0@ == key,
            self.entries@ == before.update(j, self.entries@[j]),
            self.entries@[j].0@ == key,
            command_models(self.entries@[j].1@) == value,
        ensures
            self@ == entries_view(before).insert(key, value),
    {
        let old_map = entries_view(before);
        assert forall|k: Seq<char>| #[trigger] self@.contains_key(k) == old_map.insert(key, value).contains_key(k) by {
            if has_key(before, k) {
                let p = choose|p: int| 0 <= p < before.len() && (#[trigger] before[p]).0@ == k;
                if p != j {
                    assert(self.entries@[p] == before[p]);
                }
                assert(has_key(self.entries@, k));
            }
            if has_key(self.entries@, k) {
                let p = choose|p: int| 0 <= p < self.entries@.len() && (#[trigger] self.entries@[p]).0@ == k;
                if p != j {
                    assert(self.entries@[p] == before[p]);
                    assert(has_key(before, k));
                }
            }
        }
        assert forall|k: Seq<char>| #[trigger] self@.contains_key(k) implies self@[k] == old_map.insert(key, value)[k] by {
            let p = key_position(self.entries@, k);
            assert(self.entries@[p].0@ == k);
            if p == j {
                self.lemma_position(k, j);
            } else {
                assert(self.entries@[p] == before[p]);
                let q = key_position(before, k);
                assert(has_key(before, k));
                assert(before[q].0@ == k);
                assert(q == p);
            }
        }
        assert(self@ =~= old_map.insert(key, value));
    }

    proof fn lemma_map_after_push(&self, before: Seq<(String, Vec<ResolvedCommand>)>, key: Seq<char>, value: Seq<CommandModel>)
        requires
            self.wf(),
            keys_unique(before),
            !has_key(before, key),
            self.entries@.len() == before.len() + 1,
            self.entries@.drop_last() == before,
            self.entries@.last().0@ == key,
            command_models(self.entries@.last().1@) == value,
        ensures
            self@ == entries_view(before).insert(key, value),
    {
        let old_map = entries_view(before);
        let n = before.len() as int;
        assert forall|p: int| 0 <= p < n implies self.entries@[p] == before[p] by {
            assert(self.entries@.drop_last()[p] == self.entries@[p]);
        }
        assert forall|k: Seq<char>| #[trigger] self@.contains_key(k) == old_map.insert(key, value).contains_key(k) by {
            if has_key(before, k) {
                let p = choose|p: int| 0 <= p < before.len() && (#[trigger] before[p]).0@ == k;
                assert(self.entries@[p] == before[p]);
                assert(has_key(self.entries@, k));
            }
            if k == key {
                assert(self.entries@[n].0@ == k);
                assert(has_key(self.entries@, k));
            }
            if has_key(self.entries@, k) {
                let p = choose|p: int| 0 <= p < self.entries@.len() && (#[trigger] self.entries@[p]).0@ == k;
                if p < n {
                    assert(self.entries@[p] == before[p]);
                    assert(has_key(before, k));
                }
            }
        }
        assert forall|k: Seq<char>| #[trigger] self@.contains_key(k) implies self@[k] == old_map.insert(key, value)[k] by {
            let p = key_position(self.entries@, k);
            assert(self.entries@[p].0@ == k);
            if p == n {
                self.lemma_position(k, n);
            } else {
                assert(self.entries@[p] == before[p]);
                let q = key_position(before, k);
                assert(has_key(before, k));
                assert(before[q].0@ == k);
                assert(q == p);
            }
        }
        assert(self@ =~= old_map.insert(key, value));
    }

}

/// The map view of a list of entries.
spec fn entries_view(entries: Seq<(String, Vec<ResolvedCommand>)>) -> Map<Seq<char>, Seq<CommandModel>> {
    Map::new(
        |k: Seq<char>| has_key(entries, k),
        |k: Seq<char>| command_models(entries[key_position(entries, k)].1@),
    )
}


/// The scope ids of grants, in order (a grant without a scope gives none).
pub open spec fn grant_scope_ids(grants: Seq<ResolvedCommand>) -> Seq<u64>
    decreases grants.len(),
{
    if grants.len() == 0 {
        Seq::empty()
    } else {
        grant_scope_ids(grants.drop_last()) + match grants.last().scope_id {
            Some(id) => seq![id],
            None => Seq::empty(),
        }
    }
}

/// The scope ids of the grants of map entries, entry by entry.
pub open spec fn entries_scope_ids(entries: Seq<(String, Vec<ResolvedCommand>)>) -> Seq<u64>
    decreases entries.len(),
{
    if entries.len() == 0 {
        Seq::empty()
    } else {
        entries_scope_ids(entries.drop_last()) + grant_scope_ids(entries.last().1@)
    }
}

/// A copy of a list of grants.
pub fn duplicate_commands(v: &Vec<ResolvedCommand>) -> (r: Vec<ResolvedCommand>)
    ensures
        command_models(r@) == command_models(v@),
{
    let mut r: Vec<ResolvedCommand> = Vec::new();
    let mut i: usize = 0;
    while i < v.len()
        invariant
            i <= v@.len(),
            command_models(r@) == command_models(v@.take(i as int)),
        decreases v@.len() - i,
    {
        r.push(v[i].duplicate());
        assert(command_models(v@.take(i + 1)) =~= command_models(v@.take(i as int)).push(v@[i as int]@));
        assert(command_models(r@) =~= command_models(v@.take(i + 1)));
        i += 1;
    }
    assert(v@.take(v@.len() as int) =~= v@);
    r
}

/// The grants of `key`, empty when it has none.
pub open spec fn grants_of(map: Map<Seq<char>, Seq<CommandModel>>, key: Seq<char>) -> Seq<CommandModel> {
    if map.contains_key(key) {
        map[key]
    } else {
        Seq::empty()
    }
}

impl CommandMap {
    /// Appends `grants` to those of `command` (creating its entry when missing).
    pub fn extend(&mut self, command: String, grants: Vec<ResolvedCommand>)
        requires
            old(self).wf(),
        ensures
            final(self).wf(),
            final(self)@ == old(self)@.insert(command@, grants_of(old(self)@, command@) + command_models(grants@)),
    {
        let mut grants = grants;
        let mut combined = match self.get(command.as_str()) {
            Some(existing) => duplicate_commands(existing),
            None => Vec::new(),
        };
        let ghost head = command_models(combined@);
        assert(head == grants_of(self@, command@));
        let ghost tail = command_models(grants@);
        combined.append(&mut grants);
        assert(command_models(combined@) =~= head + tail);
        self.insert(command, combined);
    }

    /// The scope ids of the grants, command by command in the order the map holds them, and
    /// within a command in the order of its grants (a grant without a scope gives none).
    pub closed spec fn scope_refs(&self) -> Seq<u64> {
        entries_scope_ids(self.entries@)
    }

    /// The scope ids of the grants (see [`CommandMap::scope_refs`]).
    pub fn scope_ids(&self) -> (r: Vec<u64>)
        ensures
            r@ == self.scope_refs(),
    {
        let mut r: Vec<u64> = Vec::new();
        let mut i: usize = 0;
        assert(self.entries@.take(0) =~= Seq::<(String, Vec<ResolvedCommand>)>::empty());
        while i < self.entries.len()
            invariant
                i <= self.entries@.len(),
                r@ == entries_scope_ids(self.entries@.take(i as int)),
            decreases self.entries@.len() - i,
        {
            let grants = &self.entries[i].1;
            let ghost before = r@;
            let mut k: usize = 0;
            assert(grants@.take(0) =~= Seq::<ResolvedCommand>::empty());
            while k < grants.len()
                invariant
                    k <= grants@.len(),
                    r@ == before + grant_scope_ids(grants@.take(k as int)),
                decreases grants@.len() - k,
            {
                assert(grants@.take(k + 1).drop_last() =~= grants@.take(k as int));
                match grants[k].scope_id {
                    Some(id) => {
                        r.push(id);
                        assert(r@ =~= before + grant_scope_ids(grants@.take(k + 1)));
                    },
                    None => {},
                }
                k += 1;
            }
            assert(grants@.take(k as int) =~= grants@);
            assert(self.entries@.take(i + 1).drop_last() =~= self.entries@.take(i as int));
            i += 1;
        }
        assert(self.entries@.take(i as int) =~= self.entries@);
        r
    }

    /// The command names, each once.
    pub fn keys(&self) -> (r: Vec<String>)
        requires
            self.wf(),
        ensures
            forall|i: int, j: int| 0 <= i < r@.len() && 0 <= j < r@.len() && i != j ==> (#[trigger] r@[i])@ != (#[trigger] r@[j])@,
            forall|k: Seq<char>| self@.contains_key(k) <==> exists|i: int| 0 <= i < r@.len() && (#[trigger] r@[i])@ == k,
    {
        let mut r: Vec<String> = Vec::new();
        let mut i: usize = 0;
        while i < self.entries.len()
            invariant
                i <= self.entries@.len(),
                r@.len() == i,
                forall|j: int| 0 <= j < i ==> (#[trigger] r@[j])@ == self.entries@[j].0@,
            decreases self.entries@.len() - i,
        {
            r.push(self.entries[i].0.clone());
            i += 1;
        }
        assert(keys_unique(self.entries@));
        assert forall|k: Seq<char>| self@.contains_key(k) <==> exists|i: int| 0 <= i < r@.len() && (#[trigger] r@[i])@ == k by {
            if self@.contains_key(k) {
                let p = key_position(self.entries@, k);
                assert(r@[p]@ == k);
            }
            if exists|i: int| 0 <= i < r@.len() && (#[trigger] r@[i])@ == k {
                let i = choose|i: int| 0 <= i < r@.len() && (#[trigger] r@[i])@ == k;
                assert(self.entries@[i].0@ == k);
            }
        }
        r
    }
}

// ---------------------------------------------------------------------------------------------
// access decisions
// ---------------------------------------------------------------------------------------------

/// The wildcard key that stands for every command of the same manifest: `*` for app commands,
/// and `plugin:<name>|*` (everything up to the last `|`, then `|*`) for plugin commands.
pub open spec fn wildcard_key(command: Seq<char>) -> Seq<char> {
    match last_index_of(command, '|') {
        Some(i) => command.subrange(0, i) + "|*"@,
        None => "*"@,
    }
}

/// The wildcard key of `command`.
pub fn wildcard_command(command: &str) -> (r: String)
    ensures
        r@ == wildcard_key(command@),
{
    match rfind_char(command, '|') {
        Some(i) => {
            let prefix = crate::text::substring(command, 0, i);
            concat(prefix.as_str(), "|*")
        },
        None => String::from_str("*"),
    }
}

/// The grant filter for a window, webview and origin.
pub open spec fn applies_pred(window: Seq<char>, webview: Seq<char>, origin: Origin) -> spec_fn(CommandModel) -> bool {
    |c: CommandModel| grant_applies(c, window, webview, origin)
}

/// What [`RuntimeAuthority::resolve_access`] answers: nothing if the command, or its wildcard
/// key, has a denial entry; otherwise the grants of the command followed by those of its
/// wildcard key that apply to the window, webview and origin, if there are any.
pub open spec fn access_decision(
    allowed: Map<Seq<char>, Seq<CommandModel>>,
    denied: Map<Seq<char>, Seq<CommandModel>>,
    command: Seq<char>,
    window: Seq<char>,
    webview: Seq<char>,
    origin: Origin,
) -> Option<Seq<CommandModel>> {
    let wildcard = wildcard_key(command);
    if denied.contains_key(command) || denied.contains_key(wildcard) {
        None
    } else {
        let candidates = grants_of(allowed, command) + grants_of(allowed, wildcard);
        let applying = candidates.filter(applies_pred(window, webview, origin));
        if applying.len() == 0 {
            None
        } else {
            Some(applying)
        }
    }
}

/// Appends copies of the grants of `list` that apply to the window, webview and origin.
fn push_applying(list: &Vec<ResolvedCommand>, window: &str, webview: &str, origin: &Origin, out: &mut Vec<ResolvedCommand>)
    ensures
        command_models(final(out)@) == command_models(old(out)@) + command_models(list@).filter(
            applies_pred(window@, webview@, *origin),
        ),
{
    let ghost pred = applies_pred(window@, webview@, *origin);
    let ghost start = command_models(out@);
    let mut i: usize = 0;
    assert(command_models(list@.take(0)).filter(pred) =~= Seq::<CommandModel>::empty()) by {
        reveal(Seq::filter);
    }
    assert(command_models(out@) =~= start + command_models(list@.take(0)).filter(pred));
    while i < list.len()
        invariant
            i <= list@.len(),
            pred == applies_pred(window@, webview@, *origin),
            command_models(out@) == start + command_models(list@.take(i as int)).filter(pred),
        decreases list@.len() - i,
    {
        let ghost prev = command_models(list@.take(i as int));
        assert(command_models(list@.take(i + 1)) =~= prev.push(list@[i as int]@));
        assert(command_models(list@.take(i + 1)).drop_last() =~= prev);
        if list[i].applies_to(window, webview, origin) {
            let ghost before = out@;
            out.push(list[i].duplicate());
            assert(command_models(out@) =~= command_models(before).push(list@[i as int]@));
            assert(command_models(list@.take(i + 1)).filter(pred) == prev.filter(pred).push(list@[i as int]@)) by {
                reveal(Seq::filter);
            }
            assert(command_models(out@) =~= start + command_models(list@.take(i + 1)).filter(pred));
        } else {
            assert(command_models(list@.take(i + 1)).filter(pred) == prev.filter(pred)) by {
                reveal(Seq::filter);
            }
        }
        i += 1;
    }
    assert(list@.take(list@.len() as int) =~= list@);
}


/// `m` with the grants of `n` appended, for the keys of `n` that are in `done`.
pub open spec fn merged_over(
    m: Map<Seq<char>, Seq<CommandModel>>,
    n: Map<Seq<char>, Seq<CommandModel>>,
    done: Set<Seq<char>>,
) -> Map<Seq<char>, Seq<CommandModel>> {
    Map::new(
        |k: Seq<char>| m.contains_key(k) || (n.contains_key(k) && done.contains(k)),
        |k: Seq<char>| grants_of(m, k) + if n.contains_key(k) && done.contains(k) {
            grants_of(n, k)
        } else {
            Seq::empty()
        },
    )
}

/// `m` with the grants of `n` appended to those of each key.
pub open spec fn merged(m: Map<Seq<char>, Seq<CommandModel>>, n: Map<Seq<char>, Seq<CommandModel>>) -> Map<Seq<char>, Seq<CommandModel>> {
    Map::new(|k: Seq<char>| m.contains_key(k) || n.contains_key(k), |k: Seq<char>| grants_of(m, k) + grants_of(n, k))
}

/// Merging `n` into `m`: a command is in the result when it is in either; its grants are those it
/// had in `m`, kept in place and in order, followed by those it has in `n`, in order, and no other.
pub proof fn lemma_merged_appends(m: Map<Seq<char>, Seq<CommandModel>>, n: Map<Seq<char>, Seq<CommandModel>>, k: Seq<char>)
    ensures
        merged(m, n).contains_key(k) <==> m.contains_key(k) || n.contains_key(k),
        grants_of(merged(m, n), k).len() == grants_of(m, k).len() + grants_of(n, k).len(),
        forall|i: int| 0 <= i < grants_of(m, k).len() ==> #[trigger] grants_of(merged(m, n), k)[i] == grants_of(m, k)[i],
        forall|j: int| 0 <= j < grants_of(n, k).len() ==> #[trigger] grants_of(merged(m, n), k)[grants_of(m, k).len() + j] == grants_of(n, k)[j],
{
}

/// What merging keeps: every command of `m` stays, its grants first and unchanged, and every
/// command of `n` is there, its grants last.
pub open spec fn merge_keeps(m: Map<Seq<char>, Seq<CommandModel>>, n: Map<Seq<char>, Seq<CommandModel>>, after: Map<Seq<char>, Seq<CommandModel>>) -> bool {
    &&& forall|k: Seq<char>| #[trigger] m.contains_key(k) ==> after.contains_key(k) && after[k].len() >= m[k].len()
        && after[k].subrange(0, m[k].len() as int) == m[k]
    &&& forall|k: Seq<char>| #[trigger] n.contains_key(k) ==> after.contains_key(k) && after[k].len() >= n[k].len()
        && after[k].subrange(after[k].len() - n[k].len(), after[k].len() as int) == n[k]
}

/// A merge keeps what both maps held (see [`merge_keeps`]).
pub proof fn lemma_merged_keeps(m: Map<Seq<char>, Seq<CommandModel>>, n: Map<Seq<char>, Seq<CommandModel>>)
    ensures
        merge_keeps(m, n, merged(m, n)),
{
    let after = merged(m, n);
    assert forall|k: Seq<char>| #[trigger] m.contains_key(k) implies after.contains_key(k) && after[k].len() >= m[k].len()
        && after[k].subrange(0, m[k].len() as int) == m[k] by {
        lemma_merged_appends(m, n, k);
        assert(after[k].subrange(0, m[k].len() as int) =~= m[k]);
    }
    assert forall|k: Seq<char>| #[trigger] n.contains_key(k) implies after.contains_key(k) && after[k].len() >= n[k].len()
        && after[k].subrange(after[k].len() - n[k].len(), after[k].len() as int) == n[k] by {
        lemma_merged_appends(m, n, k);
        assert forall|j: int| 0 <= j < n[k].len() implies #[trigger] after[k].subrange(after[k].len() - n[k].len(), after[k].len() as int)[j] == n[k][j] by {
            assert(grants_of(after, k)[grants_of(m, k).len() + j] == grants_of(n, k)[j]);
        }
        assert(after[k].subrange(after[k].len() - n[k].len(), after[k].len() as int) =~= n[k]);
    }
}

/// Adding a capability that denies neither the command nor its wildcard key takes no access
/// away: every grant that applied to a window, webview and origin before still applies after.
pub proof fn lemma_access_kept_after_merge(
    allowed: Map<Seq<char>, Seq<CommandModel>>,
    denied: Map<Seq<char>, Seq<CommandModel>>,
    more_allowed: Map<Seq<char>, Seq<CommandModel>>,
    more_denied: Map<Seq<char>, Seq<CommandModel>>,
    command: Seq<char>,
    window: Seq<char>,
    webview: Seq<char>,
    origin: Origin,
    grant: CommandModel,
)
    requires
        access_decision(allowed, denied, command, window, webview, origin) matches Some(v) && v.contains(grant),
        !more_denied.contains_key(command),
        !more_denied.contains_key(wildcard_key(command)),
    ensures
        access_decision(merged(allowed, more_allowed), merged(denied, more_denied), command, window, webview, origin) matches Some(v)
            && v.contains(grant),
{
    let w = wildcard_key(command);
    let p = applies_pred(window, webview, origin);
    let before = grants_of(allowed, command) + grants_of(allowed, w);
    let after = grants_of(merged(allowed, more_allowed), command) + grants_of(merged(allowed, more_allowed), w);
    before.lemma_filter_contains_rev(p, grant);
    let i = choose|i: int| 0 <= i < before.len() && before[i] == grant;
    lemma_merged_appends(allowed, more_allowed, command);
    lemma_merged_appends(allowed, more_allowed, w);
    lemma_merged_appends(denied, more_denied, command);
    lemma_merged_appends(denied, more_denied, w);
    let filtered = before.filter(p);
    let k = choose|k: int| 0 <= k < filtered.len() && filtered[k] == grant;
    before.lemma_filter_pred(p, k);
    let la = grants_of(allowed, command).len();
    let j = if i < la {
        assert(after[i] == grant);
        i
    } else {
        let t = grants_of(merged(allowed, more_allowed), command).len();
        assert(grants_of(merged(allowed, more_allowed), w)[i - la] == grants_of(allowed, w)[i - la]);
        assert(after[t + (i - la)] == grant);
        t + (i - la)
    };
    assert(0 <= j < after.len() && after[j] == grant);
    after.lemma_filter_contains(p, j);
}

impl CommandMap {
    /// Appends every entry of `other` to this map.
    pub fn merge_from(&mut self, other: &CommandMap)
        requires
            old(self).wf(),
            other.wf(),
        ensures
            final(self).wf(),
            final(self)@ == merged(old(self)@, other@),
            merge_keeps(old(self)@, other@, final(self)@),
    {
        proof {
            lemma_merged_keeps(self@, other@);
        }
        let ghost m = self@;
        let ghost n = other@;
        let keys = other.keys();
        let mut i: usize = 0;
        assert(self@ =~= merged_over(m, n, Set::new(|k: Seq<char>| exists|j: int| 0 <= j < 0 && (#[trigger] keys@[j])@ == k)));
        while i < keys.len()
            invariant
                self.wf(),
                other.wf(),
                n == other@,
                i <= keys@.len(),
                forall|a: int, b: int| 0 <= a < keys@.len() && 0 <= b < keys@.len() && a != b ==> (#[trigger] keys@[a])@ != (#[trigger] keys@[b])@,
                forall|k: Seq<char>| n.contains_key(k) <==> exists|j: int| 0 <= j < keys@.len() && (#[trigger] keys@[j])@ == k,
                self@ == merged_over(m, n, Set::new(|k: Seq<char>| exists|j: int| 0 <= j < i && (#[trigger] keys@[j])@ == k)),
            decreases keys@.len() - i,
        {
            let ghost done = Set::new(|k: Seq<char>| exists|j: int| 0 <= j < i && (#[trigger] keys@[j])@ == k);
            let ghost done2 = Set::new(|k: Seq<char>| exists|j: int| 0 <= j < i + 1 && (#[trigger] keys@[j])@ == k);
            let key = &keys[i];
            assert(n.contains_key(key@));
            let grants = match other.get(key.as_str()) {
                Some(g) => duplicate_commands(g),
                None => Vec::new(),
            };
            assert(!done.contains(key@)) by {
                if done.contains(key@) {
                    let j = choose|j: int| 0 <= j < i && (#[trigger] keys@[j])@ == key@;
                    assert(keys@[j]@ != keys@[i as int]@);
                }
            }
            let ghost before = self@;
            self.extend(key.clone(), grants);
            assert forall|k: Seq<char>| done2.contains(k) == (done.contains(k) || k == key@) by {
                if done2.contains(k) {
                    let j = choose|j: int| 0 <= j < i + 1 && (#[trigger] keys@[j])@ == k;
                    if j < i {
                        assert(done.contains(k));
                    }
                }
                if k == key@ {
                    assert(keys@[i as int]@ == k);
                }
            }
            assert(self@ =~= merged_over(m, n, done2));
            i += 1;
        }
        let ghost all = Set::new(|k: Seq<char>| exists|j: int| 0 <= j < keys@.len() && (#[trigger] keys@[j])@ == k);
        assert(self@ =~= merged(m, n)) by {
            assert forall|k: Seq<char>| n.contains_key(k) implies all.contains(k) by {}
        }
    }
}

/// A named list of permissions (permission or set identifiers, or `default`).
#[derive(Clone, Debug, Default, PartialEq, Eq)]
pub struct PermissionSet {
    pub identifier: String,
    pub description: String,
    pub permissions: Vec<String>,
}

/// The commands a permission allows and denies.
#[derive(Clone, Debug, Default, PartialEq, Eq)]
pub struct Commands {
    pub allow: Vec<String>,
    pub deny: Vec<String>,
}

/// A permission: the commands it allows and denies.
#[derive(Clone, Debug, Default, PartialEq, Eq)]
pub struct Permission {
    pub identifier: String,
    pub description: String,
    pub commands: Commands,
}

/// The ACL manifest of a plugin (or of the app).
#[derive(Clone, Debug, Default, PartialEq, Eq)]
pub struct Manifest {
    /// The permission set that `default` stands for.
    pub default_permission: Option<PermissionSet>,
    /// The permissions, by identifier.
    pub permissions: Vec<(String, Permission)>,
    /// The permission sets, by identifier.
    pub permission_sets: Vec<(String, PermissionSet)>,
    /// The commands the manifest declares.
    pub commands: Vec<String>,
    /// The permissions generated for the declared commands, by identifier: `allow-<command>` and
    /// `deny-<command>`, and (for the app) the `allow-*` and `deny-*` wildcards.
    pub command_permissions: Vec<(String, Permission)>,
}

/// A resolved access control list: the grants and denials of each command, and the scopes they refer to.
#[derive(Clone, Debug, Default)]
pub struct Resolved {
    /// Whether the application declares its own ACL manifest.
    pub has_app_acl: bool,
    /// The grants of each command.
    pub allowed_commands: CommandMap,
    /// The denials of each command.
    pub denied_commands: CommandMap,
    /// The scopes the grants refer to, by scope id.
    pub command_scope: BTreeMap<u64, ResolvedScope>,
    /// The global scope of each plugin (each plugin once).
    pub global_scope: Vec<(String, ResolvedScope)>,
}

/// The scope caches that adding a capability invalidates: the global scope cache (when the
/// capability had global scopes) and the cache of each command scope it extended.
#[derive(Clone, Debug, PartialEq, Eq)]
pub struct ScopeCacheReset {
    pub global: bool,
    pub commands: Vec<u64>,
}

/// The runtime authority: authorizes command calls from the resolved access control list.
pub struct RuntimeAuthority {
    has_app_acl: bool,
    allowed_commands: CommandMap,
    denied_commands: CommandMap,
    scopes: ScopeManager,
    acl: Vec<(String, Manifest)>,
}

impl RuntimeAuthority {
    /// The maps are well formed.
    pub closed spec fn wf(&self) -> bool {
        self.allowed_commands.wf() && self.denied_commands.wf() && self.scopes.wf()
    }

    /// The commands' scopes, by scope id.
    pub closed spec fn command_scopes(&self) -> Map<u64, ScopeModel> {
        self.scopes.command_scopes()
    }

    /// The plugins' global scopes, by plugin name.
    pub closed spec fn global_scopes(&self) -> Map<Seq<char>, ScopeModel> {
        self.scopes.global_scopes()
    }

    /// The grants of each command.
    pub closed spec fn allowed(&self) -> Map<Seq<char>, Seq<CommandModel>> {
        self.allowed_commands@
    }

    /// The denials of each command.
    pub closed spec fn denied(&self) -> Map<Seq<char>, Seq<CommandModel>> {
        self.denied_commands@
    }

    /// Whether the application declares its own ACL manifest.
    pub closed spec fn app_acl(&self) -> bool {
        self.has_app_acl
    }

    /// The raw manifests, by plugin name (the app's under [`APP_ACL_KEY`]).
    pub closed spec fn manifests(&self) -> Seq<(String, Manifest)> {
        self.acl@
    }

    /// An authority over `resolved`, with the raw manifests `acl` (by plugin name) for error messages.
    pub fn new(acl: Vec<(String, Manifest)>, resolved: Resolved) -> (r: RuntimeAuthority)
        requires
            resolved.allowed_commands.wf(),
            resolved.denied_commands.wf(),
            keys_unique(resolved.global_scope@),
        ensures
            r.wf(),
            r.allowed() == resolved.allowed_commands@,
            r.denied() == resolved.denied_commands@,
            r.command_scopes() == ids_view(resolved.command_scope@),
            r.global_scopes() == globals_view(resolved.global_scope@),
            r.app_acl() == resolved.has_app_acl,
            r.manifests() == acl@,
    {
        RuntimeAuthority {
            has_app_acl: resolved.has_app_acl,
            allowed_commands: resolved.allowed_commands,
            denied_commands: resolved.denied_commands,
            scopes: ScopeManager::new(resolved.command_scope, resolved.global_scope),
            acl,
        }
    }

    /// The scope of the scope id `id`, if any.
    pub fn command_scope(&self, id: u64) -> (r: Option<&ResolvedScope>)
        ensures
            r is Some <==> self.command_scopes().contains_key(id),
            r matches Some(s) ==> scope_model(*s) == self.command_scopes()[id],
    {
        self.scopes.command_scope(id)
    }

    /// The global scope of the plugin `plugin`, if any.
    pub fn global_scope(&self, plugin: &str) -> (r: Option<&ResolvedScope>)
        requires
            self.wf(),
        ensures
            r is Some <==> self.global_scopes().contains_key(plugin@),
            r matches Some(s) ==> scope_model(*s) == self.global_scopes()[plugin@],
    {
        self.scopes.global_scope(plugin)
    }

    /// Whether the application declares its own ACL manifest.
    pub fn has_app_manifest(&self) -> (r: bool)
        ensures
            r == self.app_acl(),
    {
        self.has_app_acl
    }

    /// The grants of `command` that apply to the window, webview and origin, or `None` when the
    /// command (or its wildcard key) is denied or nothing applies.
    pub fn resolve_access(&self, command: &str, window: &str, webview: &str, origin: &Origin) -> (r: Option<Vec<ResolvedCommand>>)
        requires
            self.wf(),
        ensures
            r is Some <==> access_decision(self.allowed(), self.denied(), command@, window@, webview@, *origin) is Some,
            r matches Some(v) ==> access_decision(self.allowed(), self.denied(), command@, window@, webview@, *origin) == Some(command_models(v@)),
    {
        let wildcard = wildcard_command(command);
        if self.denied_commands.get(command).is_some() || self.denied_commands.get(wildcard.as_str()).is_some() {
            return None;
        }
        let mut out: Vec<ResolvedCommand> = Vec::new();
        let ghost pred = applies_pred(window@, webview@, *origin);
        match self.allowed_commands.get(command) {
            Some(list) => push_applying(list, window, webview, origin, &mut out),
            None => {},
        }
        let ghost first = command_models(out@);
        match self.allowed_commands.get(wildcard.as_str()) {
            Some(list) => push_applying(list, window, webview, origin, &mut out),
            None => {},
        }
        proof {
            let a = grants_of(self.allowed(), command@);
            let b = grants_of(self.allowed(), wildcard@);
            assert(Seq::<CommandModel>::empty().filter(pred) =~= Seq::<CommandModel>::empty()) by {
                reveal(Seq::filter);
            }
            assert(first =~= a.filter(pred));
            assert(command_models(out@) =~= a.filter(pred) + b.filter(pred));
            Seq::filter_distributes_over_add(a, b, pred);
        }
        if out.len() == 0 {
            None
        } else {
            Some(out)
        }
    }

    /// Grants `command` to every window (`*`) in the given context.
    #[allow(non_snake_case)]
    pub fn __allow_command(&mut self, command: String, context: ExecutionContext)
        requires
            old(self).wf(),
        ensures
            final(self).wf(),
            final(self).denied() == old(self).denied(),
            final(self).app_acl() == old(self).app_acl(),
            final(self).manifests() == old(self).manifests(),
            final(self).allowed().dom() == old(self).allowed().dom().insert(command@),
            final(self).allowed()[command@].len() == 1,
            final(self).allowed()[command@][0].windows == seq![seq!['*']],
            final(self).allowed()[command@][0].webviews.len() == 0,
            final(self).allowed()[command@][0].context == context@,
            final(self).allowed()[command@][0].scope_id is None,
            forall|k: Seq<char>| k != command@ && old(self).allowed().contains_key(k) ==> final(self).allowed()[k] == old(self).allowed()[k],
    {
        let ghost ctx = context@;
        let mut windows: Vec<GlobPattern> = Vec::new();
        windows.push(GlobPattern::wildcard());
        let grant = ResolvedCommand {
            referenced_by: ResolvedCommandReference { capability: String::new(), permission: String::new() },
            context,
            windows,
            webviews: Vec::new(),
            scope_id: None,
        };
        let mut grants: Vec<ResolvedCommand> = Vec::new();
        grants.push(grant);
        assert(pattern_texts(grants@[0].windows@) =~= seq![seq!['*']]);
        assert(pattern_texts(grants@[0].webviews@) =~= Seq::<Seq<char>>::empty());
        self.allowed_commands.insert(command, grants);
    }

    /// Adds an already resolved capability: each plugin's global scope is extended by the
    /// capability's; each command keeps its grants and denials, followed by those of the
    /// capability; and for each grant of the capability that refers to a scope (which the
    /// capability holds), that command scope is extended by the capability's scope of that id.
    /// Returns the scope caches this invalidates.
    pub fn add_capability(&mut self, capability: Resolved) -> (r: ScopeCacheReset)
        requires
            old(self).wf(),
            capability.allowed_commands.wf(),
            capability.denied_commands.wf(),
            forall|i: int| 0 <= i < capability.allowed_commands.scope_refs().len()
                ==> capability.command_scope@.contains_key(#[trigger] capability.allowed_commands.scope_refs()[i]),
        ensures
            final(self).wf(),
            final(self).allowed() == merged(old(self).allowed(), capability.allowed_commands@),
            final(self).denied() == merged(old(self).denied(), capability.denied_commands@),
            merge_keeps(old(self).allowed(), capability.allowed_commands@, final(self).allowed()),
            merge_keeps(old(self).denied(), capability.denied_commands@, final(self).denied()),
            final(self).global_scopes() == globals_extended(old(self).global_scopes(), capability.global_scope@),
            final(self).command_scopes() == commands_extended(
                old(self).command_scopes(),
                capability.allowed_commands.scope_refs(),
                ids_view(capability.command_scope@),
            ),
            r.global == (capability.global_scope@.len() > 0),
            r.commands@ == capability.allowed_commands.scope_refs(),
            final(self).app_acl() == old(self).app_acl(),
            final(self).manifests() == old(self).manifests(),
    {
        proof {
            lemma_merged_keeps(self.allowed(), capability.allowed_commands@);
            lemma_merged_keeps(self.denied(), capability.denied_commands@);
        }
        self.scopes.extend_globals(&capability.global_scope);
        self.denied_commands.merge_from(&capability.denied_commands);
        let refs = capability.allowed_commands.scope_ids();
        self.scopes.extend_commands(&refs, &capability.command_scope);
        self.allowed_commands.merge_from(&capability.allowed_commands);
        ScopeCacheReset { global: capability.global_scope.len() > 0, commands: refs }
    }
}


// ---------------------------------------------------------------------------------------------
// access messages
// ---------------------------------------------------------------------------------------------

/// The texts of a list of strings.
pub open spec fn texts(v: Seq<String>) -> Seq<Seq<char>> {
    v.map_values(|s: String| s@)
}

/// Texts joined with a separator.
pub open spec fn joined_texts(pieces: Seq<Seq<char>>, sep: Seq<char>) -> Seq<char>
    decreases pieces.len(),
{
    if pieces.len() == 0 {
        Seq::empty()
    } else if pieces.len() == 1 {
        pieces[0]
    } else {
        joined_texts(pieces.drop_last(), sep) + sep + pieces.last()
    }
}

/// Joins the strings with the separator.
pub fn join_texts(pieces: &Vec<String>, sep: &str) -> (r: String)
    ensures
        r@ == joined_texts(texts(pieces@), sep@),
{
    let mut out = String::new();
    let mut i: usize = 0;
    while i < pieces.len()
        invariant
            i <= pieces@.len(),
            out@ == joined_texts(texts(pieces@.take(i as int)), sep@),
        decreases pieces@.len() - i,
    {
        assert(texts(pieces@.take(i + 1)).drop_last() =~= texts(pieces@.take(i as int)));
        if i > 0 {
            out.append(sep);
        }
        out.append(pieces[i].as_str());
        i += 1;
    }
    assert(pieces@.take(pieces@.len() as int) =~= pieces@);
    out
}

/// Whether one of the strings is `s`.
pub open spec fn strings_contain(v: Seq<String>, s: Seq<char>) -> bool {
    exists|i: int| 0 <= i < v.len() && (#[trigger] v[i])@ == s
}

fn contains_text(v: &Vec<String>, s: &str) -> (r: bool)
    ensures
        r == strings_contain(v@, s@),
{
    let mut i: usize = 0;
    while i < v.len()
        invariant
            i <= v@.len(),
            forall|j: int| 0 <= j < i ==> (#[trigger] v@[j])@ != s@,
        decreases v@.len() - i,
    {
        if str_eq(v[i].as_str(), s) {
            return true;
        }
        i += 1;
    }
    false
}

/// The position of the first entry with the key.
pub open spec fn first_key<V>(entries: Seq<(String, V)>, key: Seq<char>) -> Option<int>
    decreases entries.len(),
{
    if entries.len() == 0 {
        None
    } else {
        match first_key(entries.drop_last(), key) {
            Some(i) => Some(i),
            None => if entries.last().0@ == key { Some(entries.len() - 1) } else { None },
        }
    }
}

fn find_first<V>(entries: &Vec<(String, V)>, key: &str) -> (r: Option<usize>)
    ensures
        r matches Some(i) ==> first_key(entries@, key@) == Some(i as int) && i < entries@.len(),
        r is None ==> first_key(entries@, key@) is None,
{
    let mut i: usize = 0;
    while i < entries.len()
        invariant
            i <= entries@.len(),
            first_key(entries@.take(i as int), key@) is None,
        decreases entries@.len() - i,
    {
        assert(entries@.take(i + 1).drop_last() =~= entries@.take(i as int));
        if str_eq(entries[i].0.as_str(), key) {
            assert(first_key(entries@.take(i + 1), key@) == Some(i as int));
            proof { lemma_first_key_prefix(entries@, key@, i + 1); }
            return Some(i);
        }
        i += 1;
    }
    assert(entries@.take(entries@.len() as int) =~= entries@);
    None
}

/// Once the first entry with the key lies in a prefix, it is the first entry of the whole list.
proof fn lemma_first_key_prefix<V>(entries: Seq<(String, V)>, key: Seq<char>, n: int)
    requires
        0 <= n <= entries.len(),
        first_key(entries.take(n), key) is Some,
    ensures
        first_key(entries, key) == first_key(entries.take(n), key),
    decreases entries.len() - n,
{
    if n < entries.len() {
        assert(entries.take(n + 1).drop_last() =~= entries.take(n));
        lemma_first_key_prefix(entries, key, n + 1);
    } else {
        assert(entries.take(n) =~= entries);
    }
}

/// Whether a permission identifier names one of the `allow-*` and `deny-*` wildcards.
pub open spec fn is_wildcard_permission(id: Seq<char>) -> bool {
    id == "allow-*"@ || id == "deny-*"@
}

/// Whether one of the permissions of a set (nested sets followed at most `fuel` deep) allows
/// `command`: `default` stands for the default set; another identifier allows it when it names a
/// set that does, a permission whose allowed commands hold it, or a permission generated for the
/// manifest's commands that allows it or `*` (the wildcards only when `wildcards` is set).
pub open spec fn permissions_allow(m: Manifest, perms: Seq<String>, command: Seq<char>, wildcards: bool, fuel: nat) -> bool
    decreases fuel, perms.len(),
{
    if perms.len() == 0 {
        false
    } else {
        permissions_allow(m, perms.drop_last(), command, wildcards, fuel) || permission_id_allows(m, perms.last()@, command, wildcards, fuel)
    }
}

/// Whether the permission (or set) `id` of a manifest allows `command` (see
/// [`permissions_allow`]).
pub open spec fn permission_id_allows(m: Manifest, id: Seq<char>, command: Seq<char>, wildcards: bool, fuel: nat) -> bool
    decreases fuel, 0nat,
{
    if id == "default"@ {
        match m.default_permission {
            Some(d) => fuel > 0 && permissions_allow(m, d.permissions@, command, wildcards, (fuel - 1) as nat),
            None => false,
        }
    } else {
        ||| (match first_key(m.permission_sets@, id) {
            Some(i) => fuel > 0 && 0 <= i < m.permission_sets@.len() && permissions_allow(m, m.permission_sets@[i].1.permissions@, command, wildcards, (fuel - 1) as nat),
            None => false,
        })
        ||| (match first_key(m.permissions@, id) {
            Some(i) => 0 <= i < m.permissions@.len() && strings_contain(m.permissions@[i].1.commands.allow@, command),
            None => false,
        })
        ||| (match first_key(m.command_permissions@, id) {
            Some(i) => (wildcards || !is_wildcard_permission(id)) && 0 <= i < m.command_permissions@.len()
                && (strings_contain(m.command_permissions@[i].1.commands.allow@, command)
                || strings_contain(m.command_permissions@[i].1.commands.allow@, "*"@)),
            None => false,
        })
    }
}

/// A set allows a command when a prefix of its permissions does.
proof fn lemma_prefix_allows(m: Manifest, perms: Seq<String>, command: Seq<char>, wildcards: bool, fuel: nat, n: int)
    requires
        0 <= n <= perms.len(),
        permissions_allow(m, perms.take(n), command, wildcards, fuel),
    ensures
        permissions_allow(m, perms, command, wildcards, fuel),
    decreases perms.len() - n,
{
    if n < perms.len() {
        assert(perms.take(n + 1).drop_last() =~= perms.take(n));
        lemma_prefix_allows(m, perms, command, wildcards, fuel, n + 1);
    } else {
        assert(perms.take(n) =~= perms);
    }
}

fn set_allows(m: &Manifest, perms: &Vec<String>, command: &str, wildcards: bool, fuel: usize) -> (r: bool)
    ensures
        r == permissions_allow(*m, perms@, command@, wildcards, fuel as nat),
    decreases fuel,
{
    let mut i: usize = 0;
    while i < perms.len()
        invariant
            i <= perms@.len(),
            !permissions_allow(*m, perms@.take(i as int), command@, wildcards, fuel as nat),
        decreases perms@.len() - i,
    {
        assert(perms@.take(i + 1).drop_last() =~= perms@.take(i as int));
        let id = perms[i].as_str();
        let allows = if str_eq(id, "default") {
            match &m.default_permission {
                Some(d) => fuel > 0 && set_allows(m, &d.permissions, command, wildcards, fuel - 1),
                None => false,
            }
        } else {
            let by_set = match find_first(&m.permission_sets, id) {
                Some(j) => fuel > 0 && set_allows(m, &m.permission_sets[j].1.permissions, command, wildcards, fuel - 1),
                None => false,
            };
            let by_permission = match find_first(&m.permissions, id) {
                Some(j) => contains_text(&m.permissions[j].1.commands.allow, command),
                None => false,
            };
            let by_generated = match find_first(&m.command_permissions, id) {
                Some(j) => (wildcards || !(str_eq(id, "allow-*") || str_eq(id, "deny-*")))
                    && (contains_text(&m.command_permissions[j].1.commands.allow, command)
                    || contains_text(&m.command_permissions[j].1.commands.allow, "*")),
                None => false,
            };
            by_set || by_permission || by_generated
        };
        assert(allows == permission_id_allows(*m, perms@[i as int]@, command@, wildcards, fuel as nat));
        if allows {
            proof {
                lemma_prefix_allows(*m, perms@, command@, wildcards, fuel as nat, i + 1);
            }
            return true;
        }
        i += 1;
    }
    assert(perms@.take(perms@.len() as int) =~= perms@);
    false
}


/// Lexicographic order of texts by code point, as `String`'s `Ord` orders them.
pub open spec fn text_leq(a: Seq<char>, b: Seq<char>) -> bool
    decreases a.len(),
{
    if a.len() == 0 {
        true
    } else if b.len() == 0 {
        false
    } else if a[0] != b[0] {
        (a[0] as int) < (b[0] as int)
    } else {
        text_leq(a.drop_first(), b.drop_first())
    }
}

/// [`text_leq`] as a relation.
pub open spec fn text_order() -> spec_fn(Seq<char>, Seq<char>) -> bool {
    |a: Seq<char>, b: Seq<char>| text_leq(a, b)
}

proof fn lemma_text_leq_reflexive(a: Seq<char>)
    ensures
        text_leq(a, a),
    decreases a.len(),
{
    if a.len() > 0 {
        lemma_text_leq_reflexive(a.drop_first());
    }
}

proof fn lemma_text_leq_antisymmetric(a: Seq<char>, b: Seq<char>)
    requires
        text_leq(a, b),
        text_leq(b, a),
    ensures
        a == b,
    decreases a.len(),
{
    if a.len() > 0 && b.len() > 0 {
        lemma_text_leq_antisymmetric(a.drop_first(), b.drop_first());
        assert(a =~= seq![a[0]] + a.drop_first());
        assert(b =~= seq![b[0]] + b.drop_first());
    }
}

proof fn lemma_text_leq_transitive(a: Seq<char>, b: Seq<char>, c: Seq<char>)
    requires
        text_leq(a, b),
        text_leq(b, c),
    ensures
        text_leq(a, c),
    decreases a.len(),
{
    if a.len() > 0 && b.len() > 0 && c.len() > 0 && a[0] == b[0] && b[0] == c[0] {
        lemma_text_leq_transitive(a.drop_first(), b.drop_first(), c.drop_first());
    }
}

proof fn lemma_text_leq_total(a: Seq<char>, b: Seq<char>)
    ensures
        text_leq(a, b) || text_leq(b, a),
    decreases a.len(),
{
    if a.len() > 0 && b.len() > 0 {
        if a[0] == b[0] {
            lemma_text_leq_total(a.drop_first(), b.drop_first());
        } else {
            assert((a[0] as int) != (b[0] as int));
        }
    }
}

/// [`text_leq`] is a total order.
pub proof fn lemma_text_order_total()
    ensures
        vstd::relations::total_ordering(text_order()),
{
    let r = text_order();
    assert forall|a: Seq<char>| #[trigger] r(a, a) by {
        lemma_text_leq_reflexive(a);
    }
    assert forall|a: Seq<char>, b: Seq<char>| #[trigger] r(a, b) && #[trigger] r(b, a) implies a == b by {
        lemma_text_leq_antisymmetric(a, b);
    }
    assert forall|a: Seq<char>, b: Seq<char>, c: Seq<char>| #[trigger] r(a, b) && #[trigger] r(b, c) implies r(a, c) by {
        lemma_text_leq_transitive(a, b, c);
    }
    assert forall|a: Seq<char>, b: Seq<char>| #[trigger] r(a, b) || #[trigger] r(b, a) by {
        lemma_text_leq_total(a, b);
    }
}

/// `<[String]>::sort`: orders the strings by `String`'s `Ord` (lexicographic by code point),
/// keeping every string.
#[verifier::external_body]
fn sort_texts(v: &mut Vec<String>)
    ensures
        texts(final(v)@).to_multiset() == texts(old(v)@).to_multiset(),
        vstd::relations::sorted_by(texts(final(v)@), text_order()),
{
    v.sort()
}


/// How a grant names what granted it.
pub open spec fn reference_text(c: CommandModel) -> Seq<char> {
    "capability: "@ + c.capability + ", permission: "@ + c.permission
}

/// What granted each of the grants, joined with ` || `.
pub open spec fn references_text(cs: Seq<CommandModel>) -> Seq<char> {
    joined_texts(cs.map_values(|c: CommandModel| reference_text(c)), " || "@)
}

fn references_of(cs: &Vec<ResolvedCommand>) -> (r: String)
    ensures
        r@ == references_text(command_models(cs@)),
{
    let mut pieces: Vec<String> = Vec::new();
    let mut i: usize = 0;
    while i < cs.len()
        invariant
            i <= cs@.len(),
            pieces@.len() == i,
            forall|j: int| 0 <= j < i ==> (#[trigger] pieces@[j])@ == reference_text(cs@[j]@),
        decreases cs@.len() - i,
    {
        let mut p = String::from_str("capability: ");
        p.append(cs[i].referenced_by.capability.as_str());
        p.append(", permission: ");
        p.append(cs[i].referenced_by.permission.as_str());
        pieces.push(p);
        i += 1;
    }
    assert(texts(pieces@) =~= command_models(cs@).map_values(|c: CommandModel| reference_text(c)));
    join_texts(&pieces, " || ")
}

/// The labels, each in double quotes, joined with `, `.
pub open spec fn quoted_list(ws: Seq<Seq<char>>) -> Seq<char> {
    joined_texts(ws.map_values(|w: Seq<char>| "\""@ + w + "\""@), ", "@)
}

fn quoted_patterns(ps: &Vec<GlobPattern>) -> (r: String)
    ensures
        r@ == quoted_list(pattern_texts(ps@)),
{
    let mut pieces: Vec<String> = Vec::new();
    let mut i: usize = 0;
    while i < ps.len()
        invariant
            i <= ps@.len(),
            pieces@.len() == i,
            forall|j: int| 0 <= j < i ==> (#[trigger] pieces@[j])@ == "\""@ + ps@[j]@ + "\""@,
        decreases ps@.len() - i,
    {
        let mut p = String::from_str("\"");
        p.append(ps[i].as_str());
        p.append("\"");
        pieces.push(p);
        i += 1;
    }
    assert(texts(pieces@) =~= pattern_texts(ps@).map_values(|w: Seq<char>| "\""@ + w + "\""@));
    join_texts(&pieces, ", ")
}

/// Where a grant applies: `[windows: ..., webviews: ..., URL: ...]`, the window and webview
/// parts only when it names some.
pub open spec fn grant_place_text(c: CommandModel) -> Seq<char> {
    "["@ + (if c.windows.len() > 0 { "windows: "@ + quoted_list(c.windows) + ", "@ } else { Seq::empty() })
        + (if c.webviews.len() > 0 { "webviews: "@ + quoted_list(c.webviews) + ", "@ } else { Seq::empty() })
        + (match c.context {
            ContextModel::Local => "URL: local"@,
            ContextModel::Remote(u) => "URL: "@ + u,
        })
        + "]"@
}

/// Where the grants apply, or that there is nowhere.
pub open spec fn allowed_on_text(cs: Seq<CommandModel>) -> Seq<char> {
    if cs.len() == 0 {
        "command not allowed on any window/webview/URL context"@
    } else {
        "allowed on: "@ + joined_texts(cs.map_values(|c: CommandModel| grant_place_text(c)), ", "@)
    }
}

fn grant_place(c: &ResolvedCommand) -> (r: String)
    ensures
        r@ == grant_place_text(c@),
{
    let mut s = String::from_str("[");
    if c.windows.len() > 0 {
        s.append("windows: ");
        let w = quoted_patterns(&c.windows);
        s.append(w.as_str());
        s.append(", ");
    }
    if c.webviews.len() > 0 {
        s.append("webviews: ");
        let w = quoted_patterns(&c.webviews);
        s.append(w.as_str());
        s.append(", ");
    }
    match &c.context {
        ExecutionContext::Local => s.append("URL: local"),
        ExecutionContext::Remote { url } => {
            s.append("URL: ");
            s.append(url.as_str());
        },
    }
    s.append("]");
    s
}

fn allowed_on(cs: &Vec<ResolvedCommand>) -> (r: String)
    ensures
        r@ == allowed_on_text(command_models(cs@)),
{
    if cs.len() == 0 {
        return String::from_str("command not allowed on any window/webview/URL context");
    }
    let mut pieces: Vec<String> = Vec::new();
    let mut i: usize = 0;
    while i < cs.len()
        invariant
            i <= cs@.len(),
            pieces@.len() == i,
            forall|j: int| 0 <= j < i ==> (#[trigger] pieces@[j])@ == grant_place_text(cs@[j]@),
        decreases cs@.len() - i,
    {
        pieces.push(grant_place(&cs[i]));
        i += 1;
    }
    assert(texts(pieces@) =~= command_models(cs@).map_values(|c: CommandModel| grant_place_text(c)));
    let joined = join_texts(&pieces, ", ");
    concat("allowed on: ", joined.as_str())
}


/// The identifiers of the sets, in order, whose permissions allow the command.
pub open spec fn allowing_set_ids(m: Manifest, sets: Seq<(String, PermissionSet)>, command: Seq<char>, wildcards: bool, fuel: nat) -> Seq<Seq<char>>
    decreases sets.len(),
{
    if sets.len() == 0 {
        Seq::empty()
    } else {
        allowing_set_ids(m, sets.drop_last(), command, wildcards, fuel) + (if permissions_allow(m, sets.last().1.permissions@, command, wildcards, fuel) {
            seq![sets.last().1.identifier@]
        } else {
            Seq::empty()
        })
    }
}

/// The identifiers of the permissions, in order, that allow the command.
pub open spec fn allowing_permission_ids(perms: Seq<(String, Permission)>, command: Seq<char>) -> Seq<Seq<char>>
    decreases perms.len(),
{
    if perms.len() == 0 {
        Seq::empty()
    } else {
        allowing_permission_ids(perms.drop_last(), command) + (if strings_contain(perms.last().1.commands.allow@, command) {
            seq![perms.last().1.identifier@]
        } else {
            Seq::empty()
        })
    }
}

/// A command name with each `_` written as `-`.
pub open spec fn dashed(s: Seq<char>) -> Seq<char> {
    s.map_values(|c: char| if c == '_' { '-' } else { c })
}

/// The permissions of a manifest that reference a command: `default` when the default set allows
/// it, each set and each permission that allows it, `allow-<command>` when the manifest declares
/// the command, and `allow-*` when wildcards are available and it declares any command. Nested
/// sets are followed as deep as there are sets.
pub open spec fn referencing_permissions(m: Manifest, command: Seq<char>, wildcards: bool) -> Seq<Seq<char>> {
    let fuel = m.permission_sets@.len();
    (match m.default_permission {
        Some(d) => if permissions_allow(m, d.permissions@, command, wildcards, fuel) { seq!["default"@] } else { Seq::empty() },
        None => Seq::empty(),
    })
        + allowing_set_ids(m, m.permission_sets@, command, wildcards, fuel)
        + allowing_permission_ids(m.permissions@, command)
        + (if strings_contain(m.commands@, command) { seq!["allow-"@ + dashed(command)] } else { Seq::empty() })
        + (if wildcards && m.commands@.len() > 0 { seq!["allow-*"@] } else { Seq::empty() })
}

fn dashed_text(s: &str) -> (r: String)
    ensures
        r@ == dashed(s@),
{
    let cs = chars_of(s);
    let mut out = String::new();
    let mut i: usize = 0;
    while i < cs.len()
        invariant
            i <= cs@.len(),
            cs@ == s@,
            out@ == dashed(s@).take(i as int),
        decreases cs@.len() - i,
    {
        let c = if cs[i] == '_' { '-' } else { cs[i] };
        push_char(&mut out, c);
        assert(dashed(s@).take(i + 1) =~= dashed(s@).take(i as int).push(c));
        i += 1;
    }
    assert(dashed(s@).take(cs@.len() as int) =~= dashed(s@));
    out
}

fn referencing_permissions_of(m: &Manifest, command: &str, wildcards: bool) -> (r: Vec<String>)
    ensures
        texts(r@) == referencing_permissions(*m, command@, wildcards),
{
    let fuel = m.permission_sets.len();
    let mut out: Vec<String> = Vec::new();
    match &m.default_permission {
        Some(d) => {
            if set_allows(m, &d.permissions, command, wildcards, fuel) {
                out.push(String::from_str("default"));
            }
        },
        None => {},
    }
    let ghost head = texts(out@);
    assert(head =~= (match m.default_permission {
        Some(d) => if permissions_allow(*m, d.permissions@, command@, wildcards, fuel as nat) { seq!["default"@] } else { Seq::empty() },
        None => Seq::<Seq<char>>::empty(),
    }));
    let mut i: usize = 0;
    while i < m.permission_sets.len()
        invariant
            i <= m.permission_sets@.len(),
            fuel == m.permission_sets@.len(),
            texts(out@) == head + allowing_set_ids(*m, m.permission_sets@.take(i as int), command@, wildcards, fuel as nat),
        decreases m.permission_sets@.len() - i,
    {
        assert(m.permission_sets@.take(i + 1).drop_last() =~= m.permission_sets@.take(i as int));
        let ghost before = texts(out@);
        if set_allows(m, &m.permission_sets[i].1.permissions, command, wildcards, fuel) {
            out.push(m.permission_sets[i].1.identifier.clone());
            assert(texts(out@) =~= before.push(m.permission_sets@[i as int].1.identifier@));
        }
        i += 1;
    }
    assert(m.permission_sets@.take(m.permission_sets@.len() as int) =~= m.permission_sets@);
    let ghost mid = texts(out@);
    let mut j: usize = 0;
    while j < m.permissions.len()
        invariant
            j <= m.permissions@.len(),
            texts(out@) == mid + allowing_permission_ids(m.permissions@.take(j as int), command@),
        decreases m.permissions@.len() - j,
    {
        assert(m.permissions@.take(j + 1).drop_last() =~= m.permissions@.take(j as int));
        let ghost before = texts(out@);
        if contains_text(&m.permissions[j].1.commands.allow, command) {
            out.push(m.permissions[j].1.identifier.clone());
            assert(texts(out@) =~= before.push(m.permissions@[j as int].1.identifier@));
        }
        j += 1;
    }
    assert(m.permissions@.take(m.permissions@.len() as int) =~= m.permissions@);
    let ghost tail0 = texts(out@);
    if contains_text(&m.commands, command) {
        let d = dashed_text(command);
        out.push(concat("allow-", d.as_str()));
    }
    let ghost tail1 = texts(out@);
    assert(tail1 =~= tail0 + (if strings_contain(m.commands@, command@) { seq!["allow-"@ + dashed(command@)] } else { Seq::empty() }));
    if wildcards && m.commands.len() > 0 {
        out.push(String::from_str("allow-*"));
    }
    assert(texts(out@) =~= tail1 + (if wildcards && m.commands@.len() > 0 { seq!["allow-*"@] } else { Seq::empty() }));
    out
}


/// Permission identifiers as a manifest under `key` shows them: bare for the app, else
/// `<key>:<identifier>`.
pub open spec fn shown_ids(key: Seq<char>, ids: Seq<Seq<char>>) -> Seq<Seq<char>> {
    ids.map_values(|p: Seq<char>| if key == APP_ACL_KEY@ { p } else { key + ":"@ + p })
}

/// What the manifests say of a command that is not granted: the plugin is not found (neither
/// under `key` nor `core:<key>`), the command is not found, or the permissions that reference it,
/// in order.
pub open spec fn permission_detail(acl: Seq<(String, Manifest)>, key: Seq<char>, command: Seq<char>) -> Seq<char> {
    let found = match first_key(acl, key) {
        Some(i) => Some(i),
        None => first_key(acl, "core:"@ + key),
    };
    match found {
        Some(i) => {
            let k = acl[i].0@;
            let listed = joined_texts(shown_ids(k, referencing_permissions(acl[i].1, command, k == APP_ACL_KEY@).sort_by(text_order())), ", "@);
            if listed.len() == 0 {
                "Command not found"@
            } else {
                "Permissions associated with this command: "@ + listed
            }
        },
        None => "Plugin not found"@,
    }
}

/// The name of a command as the ACL keys it: bare for the app, `plugin:<key>|<name>` for a plugin.
pub open spec fn qualified_command(key: Seq<char>, name: Seq<char>) -> Seq<char> {
    if key == APP_ACL_KEY@ { name } else { "plugin:"@ + key + "|"@ + name }
}

/// The name of a command as messages show it: bare for the app, `<key>.<name>` for a plugin.
pub open spec fn pretty_command(key: Seq<char>, name: Seq<char>) -> Seq<char> {
    if key == APP_ACL_KEY@ { name } else { key + "."@ + name }
}

/// The URL of an origin as messages show it.
pub open spec fn origin_url_text(origin: Origin) -> Seq<char> {
    match origin {
        Origin::Local => "local"@,
        Origin::Remote { url } => url@,
    }
}

/// Why the command `name` of `key` is or is not allowed for the window, webview and origin:
/// denied (with what denied it); `allowed` when one of its grants applies; not allowed there
/// (with where it is allowed and what granted it); or not granted at all, with what the manifests
/// say of it.
pub open spec fn access_message(
    allowed: Map<Seq<char>, Seq<CommandModel>>,
    denied: Map<Seq<char>, Seq<CommandModel>>,
    acl: Seq<(String, Manifest)>,
    key: Seq<char>,
    name: Seq<char>,
    window: Seq<char>,
    webview: Seq<char>,
    origin: Origin,
) -> Seq<char> {
    let command = qualified_command(key, name);
    let pretty = pretty_command(key, name);
    if denied.contains_key(command) {
        pretty + " explicitly denied on origin "@ + origin_text(origin) + "\n\nreferenced by: "@ + references_text(denied[command])
    } else if allowed.contains_key(command) {
        let cs = allowed[command];
        if exists|i: int| 0 <= i < cs.len() && grant_applies(#[trigger] cs[i], window, webview, origin) {
            "allowed"@
        } else {
            pretty + " not allowed on window \""@ + window + "\", webview \""@ + webview + "\", URL: "@
                + origin_url_text(origin) + "\n\n"@ + allowed_on_text(cs) + "\n\nreferenced by: "@ + references_text(cs)
        }
    } else {
        pretty + " not allowed. "@ + permission_detail(acl, key, name)
    }
}

fn permission_detail_of(acl: &Vec<(String, Manifest)>, key: &str, command: &str) -> (r: String)
    ensures
        r@ == permission_detail(acl@, key@, command@),
{
    let core_key = concat("core:", key);
    let found = match find_first(acl, key) {
        Some(i) => Some(i),
        None => find_first(acl, core_key.as_str()),
    };
    match found {
        Some(i) => {
            let k = acl[i].0.as_str();
            let m = &acl[i].1;
            let wildcards = str_eq(k, APP_ACL_KEY);
            let mut ids = referencing_permissions_of(m, command, wildcards);
            let ghost collected = texts(ids@);
            sort_texts(&mut ids);
            proof {
                lemma_text_order_total();
                collected.lemma_sort_by_ensures(text_order());
                vstd::seq_lib::lemma_sorted_unique(texts(ids@), collected.sort_by(text_order()), text_order());
            }
            let mut shown: Vec<String> = Vec::new();
            let mut j: usize = 0;
            while j < ids.len()
                invariant
                    j <= ids@.len(),
                    shown@.len() == j,
                    wildcards == (acl@[i as int].0@ == APP_ACL_KEY@),
                    k@ == acl@[i as int].0@,
                    forall|t: int| 0 <= t < j ==> (#[trigger] shown@[t])@ == (if wildcards { ids@[t]@ } else { k@ + ":"@ + ids@[t]@ }),
                decreases ids@.len() - j,
            {
                if wildcards {
                    shown.push(ids[j].clone());
                } else {
                    let mut p = String::from_str(k);
                    p.append(":");
                    p.append(ids[j].as_str());
                    shown.push(p);
                }
                j += 1;
            }
            assert(texts(shown@) =~= shown_ids(k@, texts(ids@)));
            let listed = join_texts(&shown, ", ");
            if listed.as_str().is_empty() {
                String::from_str("Command not found")
            } else {
                concat("Permissions associated with this command: ", listed.as_str())
            }
        },
        None => String::from_str("Plugin not found"),
    }
}

impl RuntimeAuthority {
    /// Why the command `command_name` of the plugin `key` (the app's own under [`APP_ACL_KEY`]) is
    /// or is not allowed for the window, webview and origin (see [`access_message`]).
    pub fn resolve_access_message(&self, key: &str, command_name: &str, window: &str, webview: &str, origin: &Origin) -> (r: String)
        requires
            self.wf(),
        ensures
            r@ == access_message(self.allowed(), self.denied(), self.manifests(), key@, command_name@, window@, webview@, *origin),
    {
        let is_app = str_eq(key, APP_ACL_KEY);
        let command = if is_app {
            String::from_str(command_name)
        } else {
            let mut c = String::from_str("plugin:");
            c.append(key);
            c.append("|");
            c.append(command_name);
            c
        };
        assert(command@ =~= qualified_command(key@, command_name@));
        let pretty = if is_app {
            String::from_str(command_name)
        } else {
            let mut c = String::from_str(key);
            c.append(".");
            c.append(command_name);
            c
        };
        match self.denied_commands.get(command.as_str()) {
            Some(resolved) => {
                let mut m = pretty;
                m.append(" explicitly denied on origin ");
                let o = origin.to_display_string();
                m.append(o.as_str());
                m.append("\n\nreferenced by: ");
                let refs = references_of(resolved);
                m.append(refs.as_str());
                return m;
            },
            None => {},
        }
        match self.allowed_commands.get(command.as_str()) {
            Some(resolved) => {
                let mut i: usize = 0;
                while i < resolved.len()
                    invariant
                        i <= resolved@.len(),
                        command@ == qualified_command(key@, command_name@),
                        self.allowed().contains_key(command@),
                        !self.denied().contains_key(command@),
                        command_models(resolved@) == self.allowed()[command@],
                        forall|j: int| 0 <= j < i ==> !grant_applies(#[trigger] command_models(resolved@)[j], window@, webview@, *origin),
                    decreases resolved@.len() - i,
                {
                    if resolved[i].applies_to(window, webview, origin) {
                        proof {
                            let cs = self.allowed()[qualified_command(key@, command_name@)];
                            assert(cs == command_models(resolved@));
                            assert(grant_applies(cs[i as int], window@, webview@, *origin));
                        }
                        return String::from_str("allowed");
                    }
                    i += 1;
                }
                let mut m = pretty;
                m.append(" not allowed on window \"");
                m.append(window);
                m.append("\", webview \"");
                m.append(webview);
                m.append("\", URL: ");
                match origin {
                    Origin::Local => m.append("local"),
                    Origin::Remote { url } => m.append(url.as_str()),
                }
                m.append("\n\n");
                let places = allowed_on(resolved);
                m.append(places.as_str());
                m.append("\n\nreferenced by: ");
                let refs = references_of(resolved);
                m.append(refs.as_str());
                m
            },
            None => {
                let mut m = pretty;
                m.append(" not allowed. ");
                let detail = permission_detail_of(&self.acl, key, command_name);
                m.append(detail.as_str());
                m
            },
        }
    }
}

} // verus!
