//! Plugins: the names a plugin may not take, and the state of a permission.

use vstd::prelude::*;

use crate::text::{concat, str_eq};

verus! {

/// An error while building a plugin.
#[derive(Clone, Debug, PartialEq, Eq)]
pub enum BuilderError {
    /// The plugin uses a reserved name.
    ReservedName(String),
}

impl BuilderError {
    /// The error message.
    pub fn to_string(&self) -> (r: String)
        ensures
            self matches BuilderError::ReservedName(n) ==> r@ == "plugin uses reserved name: "@ + n@,
    {
        match self {
            BuilderError::ReservedName(name) => concat("plugin uses reserved name: ", name.as_str()),
        }
    }
}

/// Whether a plugin name is reserved: `core` and `tauri` are.
pub open spec fn is_reserved_name(name: Seq<char>) -> bool {
    name == "core"@ || name == "tauri"@
}

/// Checks the name of a plugin being built: [`BuilderError::ReservedName`] exactly when it is
/// reserved.
pub fn check_plugin_name(name: &str) -> (r: Result<(), BuilderError>)
    ensures
        r is Err <==> is_reserved_name(name@),
        r matches Err(BuilderError::ReservedName(n)) ==> n@ == name@,
{
    if str_eq(name, "core") {
        Err(BuilderError::ReservedName(String::from_str("core")))
    } else if str_eq(name, "tauri") {
        Err(BuilderError::ReservedName(String::from_str("tauri")))
    } else {
        Ok(())
    }
}

/// The state of a permission.
#[derive(Clone, Copy, Debug, PartialEq, Eq)]
pub enum PermissionState {
    /// Access has been granted.
    Granted,
    /// Access has been denied.
    Denied,
    /// Access must be requested.
    Prompt,
    /// Access must be requested, with an explanation of why the app needs it (Android).
    PromptWithRationale,
}

/// The text of a permission state.
pub open spec fn permission_text(p: PermissionState) -> Seq<char> {
    match p {
        PermissionState::Granted => "granted"@,
        PermissionState::Denied => "denied"@,
        PermissionState::Prompt => "prompt"@,
        PermissionState::PromptWithRationale => "prompt-with-rationale"@,
    }
}

/// `str::to_lowercase`: the text with every letter in lower case.
pub uninterp spec fn lower_case(s: Seq<char>) -> Seq<char>;

/// `str::to_lowercase`; text of lower-case ASCII letters and `-` stays as it is.
#[verifier::external_body]
fn to_lowercase(s: &str) -> (r: String)
    ensures
        r@ == lower_case(s@),
        (forall|i: int| 0 <= i < s@.len() ==> ('a' <= #[trigger] s@[i] <= 'z' || s@[i] == '-')) ==> r@ == s@,
{
    s.to_lowercase()
}

impl PermissionState {
    /// The state that prompts for access.
    pub fn default() -> (r: Self)
        ensures
            r == PermissionState::Prompt,
    {
        PermissionState::Prompt
    }

    /// The text of the state: `granted`, `denied`, `prompt` or `prompt-with-rationale`.
    pub fn to_string(&self) -> (r: &'static str)
        ensures
            r@ == permission_text(*self),
    {
        match self {
            PermissionState::Granted => "granted",
            PermissionState::Denied => "denied",
            PermissionState::Prompt => "prompt",
            PermissionState::PromptWithRationale => "prompt-with-rationale",
        }
    }

    /// The state a text names, whatever the case of its letters; `None` for any other text.
    pub fn from_text(s: &str) -> (r: Option<Self>)
        ensures
            r matches Some(p) ==> permission_text(p) == lower_case(s@),
            r is None ==> forall|p: PermissionState| permission_text(p) != lower_case(s@),
            forall|p: PermissionState| s@ == permission_text(p) ==> r == Some(p),
    {
        proof {
            reveal_strlit("granted");
            reveal_strlit("denied");
            reveal_strlit("prompt");
            reveal_strlit("prompt-with-rationale");
        }
        proof {
            if exists|p: PermissionState| s@ == permission_text(p) {
                let p = choose|p: PermissionState| s@ == permission_text(p);
                assert forall|i: int| 0 <= i < s@.len() implies ('a' <= #[trigger] s@[i] <= 'z' || s@[i] == '-') by {
                    match p {
                        PermissionState::Granted => assert(s@ == seq!['g', 'r', 'a', 'n', 't', 'e', 'd']),
                        PermissionState::Denied => assert(s@ == seq!['d', 'e', 'n', 'i', 'e', 'd']),
                        PermissionState::Prompt => assert(s@ == seq!['p', 'r', 'o', 'm', 'p', 't']),
                        PermissionState::PromptWithRationale => assert(s@ == seq![
                            'p', 'r', 'o', 'm', 'p', 't', '-', 'w', 'i', 't', 'h', '-', 'r', 'a', 't', 'i', 'o', 'n', 'a', 'l', 'e'
                        ]),
                    }
                }
            }
        }
        let lower = to_lowercase(s);
        assert((exists|p: PermissionState| s@ == permission_text(p)) ==> lower@ == s@);
        assert("granted"@.len() == 7 && "denied"@.len() == 6 && "prompt"@.len() == 6 && "prompt-with-rationale"@.len() == 21);
        assert("denied"@[0] != "prompt"@[0]);
        if str_eq(lower.as_str(), "granted") {
            Some(PermissionState::Granted)
        } else if str_eq(lower.as_str(), "denied") {
            Some(PermissionState::Denied)
        } else if str_eq(lower.as_str(), "prompt") {
            Some(PermissionState::Prompt)
        } else if str_eq(lower.as_str(), "prompt-with-rationale") {
            Some(PermissionState::PromptWithRationale)
        } else {
            None
        }
    }

}


/// The plugins of an app, by name, in the order they were registered.
pub struct PluginStore<P> {
    store: Vec<(String, P)>,
}

/// Whether an entry is of another plugin than `name`.
pub open spec fn other_plugin<P>(name: Seq<char>) -> spec_fn((String, P)) -> bool {
    |e: (String, P)| e.0@ != name
}

/// Whether some entry is of the plugin `name`.
pub open spec fn has_plugin<P>(entries: Seq<(String, P)>, name: Seq<char>) -> bool {
    exists|i: int| 0 <= i < entries.len() && (#[trigger] entries[i]).0@ == name
}

/// No two entries have the same name.
pub open spec fn names_unique<P>(entries: Seq<(String, P)>) -> bool {
    forall|i: int, j: int| 0 <= i < j < entries.len() ==> (#[trigger] entries[i]).0@ != (#[trigger] entries[j]).0@
}

proof fn lemma_filter_push<P>(s: Seq<(String, P)>, e: (String, P), name: Seq<char>)
    ensures
        s.push(e).filter(other_plugin::<P>(name)) == (if e.0@ != name {
            s.filter(other_plugin::<P>(name)).push(e)
        } else {
            s.filter(other_plugin::<P>(name))
        }),
{
    reveal(Seq::filter);
    assert(s.push(e).drop_last() =~= s);
}

/// Keeping the entries of other plugins keeps the names unique, and drops `name`.
proof fn lemma_filter_names<P>(s: Seq<(String, P)>, name: Seq<char>)
    requires
        names_unique(s),
    ensures
        names_unique(s.filter(other_plugin::<P>(name))),
        !has_plugin(s.filter(other_plugin::<P>(name)), name),
        forall|n: Seq<char>| n != name ==> (has_plugin(s.filter(other_plugin::<P>(name)), n) <==> has_plugin(s, n)),
    decreases s.len(),
{
    reveal(Seq::filter);
    let f = s.filter(other_plugin::<P>(name));
    if s.len() > 0 {
        let init = s.drop_last();
        assert(names_unique(init)) by {
            assert forall|i: int, j: int| 0 <= i < j < init.len() implies (#[trigger] init[i]).0@ != (#[trigger] init[j]).0@ by {
                assert(init[i] == s[i] && init[j] == s[j]);
            }
        }
        lemma_filter_names(init, name);
        let fi = init.filter(other_plugin::<P>(name));
        assert forall|n: Seq<char>| has_plugin(init, n) ==> has_plugin(s, n) by {
            if has_plugin(init, n) {
                let i = choose|i: int| 0 <= i < init.len() && (#[trigger] init[i]).0@ == n;
                assert(s[i] == init[i]);
            }
        }
        assert forall|n: Seq<char>| has_plugin(s, n) && n != s.last().0@ ==> has_plugin(init, n) by {
            if has_plugin(s, n) && n != s.last().0@ {
                let i = choose|i: int| 0 <= i < s.len() && (#[trigger] s[i]).0@ == n;
                assert(i < init.len());
                assert(init[i] == s[i]);
            }
        }
        if s.last().0@ != name {
            assert(f == fi.push(s.last()));
            assert(!has_plugin(init, s.last().0@)) by {
                if has_plugin(init, s.last().0@) {
                    let i = choose|i: int| 0 <= i < init.len() && (#[trigger] init[i]).0@ == s.last().0@;
                    assert(s[i].0@ == s[s.len() - 1].0@);
                }
            }
            assert forall|i: int, j: int| 0 <= i < j < f.len() implies (#[trigger] f[i]).0@ != (#[trigger] f[j]).0@ by {
                if j == f.len() - 1 {
                    assert(f[i] == fi[i]);
                    assert(has_plugin(fi, f[i].0@));
                } else {
                    assert(f[i] == fi[i] && f[j] == fi[j]);
                }
            }
            assert forall|n: Seq<char>| has_plugin(f, n) ==> has_plugin(fi, n) || n == s.last().0@ by {
                if has_plugin(f, n) {
                    let i = choose|i: int| 0 <= i < f.len() && (#[trigger] f[i]).0@ == n;
                    if i < fi.len() {
                        assert(f[i] == fi[i]);
                    }
                }
            }
            assert forall|n: Seq<char>| has_plugin(fi, n) ==> has_plugin(f, n) by {
                if has_plugin(fi, n) {
                    let i = choose|i: int| 0 <= i < fi.len() && (#[trigger] fi[i]).0@ == n;
                    assert(f[i] == fi[i]);
                }
            }
            assert(f[f.len() - 1] == s.last());
        } else {
            assert(f == fi);
        }
    }
}

impl<P> PluginStore<P> {
    /// The registered plugins, in order, with their names.
    pub closed spec fn entries(&self) -> Seq<(String, P)> {
        self.store@
    }

    /// An empty store.
    pub fn new() -> (r: Self)
        ensures
            r.entries().len() == 0,
    {
        PluginStore { store: Vec::new() }
    }

    /// Drops the plugins named `name`; whether there was one.
    fn remove_named(&mut self, name: &str) -> (r: bool)
        ensures
            final(self).entries() == old(self).entries().filter(other_plugin::<P>(name@)),
            r == has_plugin(old(self).entries(), name@),
    {
        let ghost start = self.store@;
        let mut rest: Vec<(String, P)> = Vec::new();
        std::mem::swap(&mut rest, &mut self.store);
        let mut kept: Vec<(String, P)> = Vec::new();
        let mut removed = false;
        let ghost mut consumed: Seq<(String, P)> = Seq::empty();
        assert(Seq::<(String, P)>::empty().filter(other_plugin::<P>(name@)) =~= Seq::<(String, P)>::empty()) by {
            reveal(Seq::filter);
        }
        while rest.len() > 0
            invariant
                start == consumed + rest@,
                kept@ == consumed.filter(other_plugin::<P>(name@)),
                removed == has_plugin(consumed, name@),
            decreases rest@.len(),
        {
            let e = rest.remove(0);
            proof {
                lemma_filter_push(consumed, e, name@);
                assert(has_plugin(consumed.push(e), name@) == (has_plugin(consumed, name@) || e.0@ == name@)) by {
                    if has_plugin(consumed, name@) {
                        let i = choose|i: int| 0 <= i < consumed.len() && (#[trigger] consumed[i]).0@ == name@;
                        assert(consumed.push(e)[i] == consumed[i]);
                    }
                    if e.0@ == name@ {
                        assert(consumed.push(e)[consumed.len() as int] == e);
                    }
                    if has_plugin(consumed.push(e), name@) && e.0@ != name@ {
                        let i = choose|i: int| 0 <= i < consumed.len() + 1 && (#[trigger] consumed.push(e)[i]).0@ == name@;
                        assert(i < consumed.len());
                        assert(consumed[i] == consumed.push(e)[i]);
                    }
                }
                consumed = consumed.push(e);
            }
            if str_eq(e.0.as_str(), name) {
                removed = true;
            } else {
                kept.push(e);
            }
        }
        assert(consumed =~= start);
        self.store = kept;
        removed
    }

    /// Adds a plugin under `name`, in place of any plugin of that name (the new one comes last);
    /// whether one was there.
    pub fn register(&mut self, name: String, plugin: P) -> (r: bool)
        ensures
            r == has_plugin(old(self).entries(), name@),
            final(self).entries() == old(self).entries().filter(other_plugin::<P>(name@)).push((name, plugin)),
    {
        let removed = self.remove_named(name.as_str());
        self.store.push((name, plugin));
        removed
    }

    /// Removes the plugin named `name`; whether there was one.
    pub fn unregister(&mut self, name: &str) -> (r: bool)
        ensures
            r == has_plugin(old(self).entries(), name@),
            final(self).entries() == old(self).entries().filter(other_plugin::<P>(name@)),
    {
        self.remove_named(name)
    }

    /// The plugin named `name`, if one is registered.
    pub fn get(&self, name: &str) -> (r: Option<&P>)
        ensures
            r is Some <==> has_plugin(self.entries(), name@),
            r matches Some(p) ==> exists|i: int| 0 <= i < self.entries().len() && (#[trigger] self.entries()[i]).0@ == name@ && self.entries()[i].1 == *p,
    {
        let mut i: usize = 0;
        while i < self.store.len()
            invariant
                i <= self.store@.len(),
                forall|j: int| 0 <= j < i ==> (#[trigger] self.store@[j]).0@ != name@,
            decreases self.store@.len() - i,
        {
            if str_eq(self.store[i].0.as_str(), name) {
                let found = &self.store[i].1;
                assert(self.entries()[i as int].0@ == name@ && self.entries()[i as int].1 == *found);
                return Some(found);
            }
            i += 1;
        }
        None
    }
}

/// Registering a plugin keeps the names of the store unique: the new plugin is the only one of
/// its name, and every other plugin is still there.
pub proof fn lemma_register_keeps_names_unique<P>(entries: Seq<(String, P)>, name: String, plugin: P)
    requires
        names_unique(entries),
    ensures
        names_unique(entries.filter(other_plugin::<P>(name@)).push((name, plugin))),
        forall|n: Seq<char>| n != name@ ==> (has_plugin(entries.filter(other_plugin::<P>(name@)).push((name, plugin)), n) <==> has_plugin(entries, n)),
{
    let f = entries.filter(other_plugin::<P>(name@));
    lemma_filter_names(entries, name@);
    let g = f.push((name, plugin));
    assert forall|i: int, j: int| 0 <= i < j < g.len() implies (#[trigger] g[i]).0@ != (#[trigger] g[j]).0@ by {
        if j == g.len() - 1 {
            assert(g[i] == f[i]);
            assert(has_plugin(f, f[i].0@));
        } else {
            assert(g[i] == f[i] && g[j] == f[j]);
        }
    }
    assert forall|n: Seq<char>| n != name@ implies (has_plugin(g, n) <==> has_plugin(f, n)) by {
        if has_plugin(g, n) {
            let i = choose|i: int| 0 <= i < g.len() && (#[trigger] g[i]).0@ == n;
            assert(i < f.len());
            assert(g[i] == f[i]);
        }
        if has_plugin(f, n) {
            let i = choose|i: int| 0 <= i < f.len() && (#[trigger] f[i]).0@ == n;
            assert(g[i] == f[i]);
        }
    }
}

/// The script of a plugin, wrapped to run on its own: `(function () { <script> })();`.
pub fn plugin_initialization_script(script: &str) -> (r: String)
    ensures
        r@ == "(function () { "@ + script@ + " })();"@,
{
    let mut r = String::from_str("(function () { ");
    r.append(script);
    r.append(" })();");
    r
}

/// The answer to a command of a plugin that is not registered.
pub fn plugin_not_found(plugin: &str) -> (r: String)
    ensures
        r@ == "plugin "@ + plugin@ + " not found"@,
{
    let mut r = String::from_str("plugin ");
    r.append(plugin);
    r.append(" not found");
    r
}

} // verus!
