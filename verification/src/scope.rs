//! The file system scope: allowed and forbidden glob patterns that a path is checked against
//! (a forbidden match always wins), and the listeners told of each change.
//!
//! Listeners are values of any type `H`. As with the event manager, running them is the caller's
//! part: a change returns an [`ScopeEmitPlan`], the caller runs the listeners it names, and
//! [`Scope::end_emit`] hands back what they asked for meanwhile, in order.

use vstd::prelude::*;

use crate::error::Error;
use crate::glob_pattern::{glob_compiles, glob_escape, glob_matches, same_up_to_separators, GlobPattern, MatchOptions};
use crate::text::{concat, ends_with_char};

verus! {

/// The id of a scope listener.
pub type ScopeEventId = u32;

/// A change of the scope.
#[derive(Clone, Debug, PartialEq, Eq)]
pub enum Event {
    /// A path has been allowed.
    PathAllowed(String),
    /// A path has been forbidden.
    PathForbidden(String),
}

/// How a path becomes a pattern.
#[derive(Clone, Copy, Debug, PartialEq, Eq)]
pub enum PatternKind {
    /// The path is a glob pattern as it stands.
    AsIs,
    /// The path itself, matched literally.
    Literal,
    /// What lies in the directory at the path (matched literally): its entries, or everything
    /// below it when recursive.
    Children { recursive: bool },
}

/// The pattern text of `path` for a kind.
pub open spec fn pattern_text(kind: PatternKind, path: Seq<char>) -> Seq<char> {
    match kind {
        PatternKind::AsIs => path,
        PatternKind::Literal => glob_escape(path),
        PatternKind::Children { recursive } => {
            let tail = if recursive { "**"@ } else { "*"@ };
            if path.len() > 0 && path.last() == '/' {
                glob_escape(path) + tail
            } else {
                glob_escape(path) + seq!['/'] + tail
            }
        },
    }
}

/// Whether the pattern `t` matches `x` literally (case sensitively, under any other options):
/// it matches `x`, and what it matches equals `x` but where both hold a path separator.
pub open spec fn literal_of(t: Seq<char>, x: Seq<char>) -> bool {
    &&& forall|sep: bool, dot: bool| #[trigger] glob_matches(t, x, true, sep, dot)
    &&& forall|input: Seq<char>, sep: bool, dot: bool|
        #[trigger] glob_matches(t, input, true, sep, dot) ==> same_up_to_separators(input, x)
}

/// The pattern of `path` for a kind; [`Error::GlobPattern`] when it is malformed.
pub fn make_pattern(kind: PatternKind, path: &str) -> (r: Result<GlobPattern, Error>)
    ensures
        r is Ok <==> glob_compiles(pattern_text(kind, path@)),
        r matches Ok(p) ==> p@ == pattern_text(kind, path@),
        r matches Err(e) ==> e is GlobPattern,
        kind is Literal ==> r is Ok && literal_of(pattern_text(kind, path@), path@),
{
    let text = match kind {
        PatternKind::AsIs => String::from_str(path),
        PatternKind::Literal => GlobPattern::escape(path),
        PatternKind::Children { recursive } => {
            let escaped = GlobPattern::escape(path);
            let tail = if recursive { "**" } else { "*" };
            proof {
                reveal_strlit("**");
                reveal_strlit("*");
                reveal_strlit("/");
            }
            if ends_with_char(path, '/') {
                concat(escaped.as_str(), tail)
            } else {
                let with_sep = concat(escaped.as_str(), "/");
                concat(with_sep.as_str(), tail)
            }
        },
    };
    assert(text@ == pattern_text(kind, path@));
    match GlobPattern::new(text.as_str()) {
        Ok(p) => Ok(p),
        Err(e) => Err(Error::GlobPattern(e.message)),
    }
}

/// The pattern texts of a list.
pub open spec fn texts(list: Seq<GlobPattern>) -> Seq<Seq<char>> {
    list.map_values(|p: GlobPattern| p@)
}

/// A set of texts held as a sequence: `t` added unless present.
pub open spec fn set_insert(s: Seq<Seq<char>>, t: Seq<char>) -> Seq<Seq<char>> {
    if s.contains(t) {
        s
    } else {
        s.push(t)
    }
}

/// Adds a pattern to a list of distinct patterns, unless one with the same text is there.
fn insert_pattern(list: &mut Vec<GlobPattern>, pattern: GlobPattern)
    requires
        texts(old(list)@).no_duplicates(),
    ensures
        texts(final(list)@) == set_insert(texts(old(list)@), pattern@),
        texts(final(list)@).no_duplicates(),
{
    let mut i: usize = 0;
    while i < list.len()
        invariant
            i <= list@.len(),
            texts(list@).no_duplicates(),
            forall|j: int| 0 <= j < i ==> #[trigger] texts(list@)[j] != pattern@,
        decreases list@.len() - i,
    {
        if crate::text::str_eq(list[i].as_str(), pattern.as_str()) {
            assert(texts(list@)[i as int] == pattern@);
            return;
        }
        i += 1;
    }
    let ghost before = texts(list@);
    list.push(pattern);
    assert(texts(list@) =~= before.push(pattern@));
}

/// What adding `path` in its normal form, and its canonical form when there is one, does to a
/// list: whether it succeeds, and the texts after it. On a malformed pattern the work stops there.
pub open spec fn pushed(list: Seq<Seq<char>>, normal: Seq<char>, canonical: Option<Seq<char>>, kind: PatternKind) -> (bool, Seq<Seq<char>>) {
    let first = pattern_text(kind, normal);
    if !glob_compiles(first) {
        (false, list)
    } else {
        let after = set_insert(list, first);
        match canonical {
            None => (true, after),
            Some(c) => if glob_compiles(pattern_text(kind, c)) {
                (true, set_insert(after, pattern_text(kind, c)))
            } else {
                (false, after)
            },
        }
    }
}

/// Adds the patterns of a path, given its normal form and its canonical form (when the file
/// system gives one), to a list.
pub fn push_pattern_resolved(list: &mut Vec<GlobPattern>, normal: &str, canonical: Option<&str>, kind: PatternKind) -> (r: Result<(), Error>)
    requires
        texts(old(list)@).no_duplicates(),
    ensures
        texts(final(list)@).no_duplicates(),
        ({
            let (ok, after) = pushed(texts(old(list)@), normal@, match canonical {
                Some(c) => Some(c@),
                None => None,
            }, kind);
            &&& (r is Ok <==> ok)
            &&& texts(final(list)@) == after
        }),
        r matches Err(e) ==> e is GlobPattern,
        kind is Literal ==> literal_of(pattern_text(kind, normal@), normal@) && glob_compiles(pattern_text(kind, normal@)),
{
    let first = make_pattern(kind, normal)?;
    insert_pattern(list, first);
    match canonical {
        None => Ok(()),
        Some(c) => {
            let second = make_pattern(kind, c)?;
            insert_pattern(list, second);
            Ok(())
        },
    }
}

/// `path.components().collect::<PathBuf>()`: the path with repeated separators, `.` components
/// (but a leading one) and a trailing separator removed.
pub uninterp spec fn normal_path(path: Seq<char>) -> Seq<char>;

/// `Path::components` collected back into a path.
#[verifier::external_body]
fn normalize_components(path: &str) -> (r: String)
    ensures
        r@ == normal_path(path@),
{
    let p: std::path::PathBuf = std::path::Path::new(path).components().collect();
    p.to_string_lossy().into_owned()
}

/// Adds the patterns of `path` to a list: its normal form, and `canonical`, the file system's
/// canonical form of that normal form, when it gave one.
pub fn push_pattern(list: &mut Vec<GlobPattern>, path: &str, canonical: Option<&str>, kind: PatternKind) -> (r: Result<(), Error>)
    requires
        texts(old(list)@).no_duplicates(),
    ensures
        texts(final(list)@).no_duplicates(),
        ({
            let (ok, after) = pushed(texts(old(list)@), normal_path(path@), match canonical {
                Some(c) => Some(c@),
                None => None,
            }, kind);
            &&& (r is Ok <==> ok)
            &&& texts(final(list)@) == after
        }),
        r matches Err(e) ==> e is GlobPattern,
        kind is Literal ==> literal_of(pattern_text(kind, normal_path(path@)), normal_path(path@))
            && glob_compiles(pattern_text(kind, normal_path(path@))),
{
    let normal = normalize_components(path);
    push_pattern_resolved(list, normal.as_str(), canonical, kind)
}

/// The normal form of a path: repeated separators, `.` components (but a leading one) and a
/// trailing separator removed.
pub fn normalize(path: &str) -> (r: String)
    ensures
        r@ == normal_path(path@),
{
    normalize_components(path)
}

/// A list that holds the literal pattern of a path matches that path (case sensitively).
pub proof fn lemma_literal_matches(list: Seq<Seq<char>>, x: Seq<char>, o: MatchOptions)
    requires
        list.contains(pattern_text(PatternKind::Literal, x)),
        literal_of(pattern_text(PatternKind::Literal, x), x),
        o.case_sensitive,
    ensures
        any_match(list, x, o),
{
    let t = pattern_text(PatternKind::Literal, x);
    let i = choose|i: int| 0 <= i < list.len() && list[i] == t;
    assert(glob_matches(t, x, true, o.require_literal_separator, o.require_literal_leading_dot));
    assert(glob_matches(list[i], x, o.case_sensitive, o.require_literal_separator, o.require_literal_leading_dot));
}

/// A successful push keeps what the list held and holds the pattern of the normal form.
pub proof fn lemma_pushed_contains(list: Seq<Seq<char>>, normal: Seq<char>, canonical: Option<Seq<char>>, kind: PatternKind)
    ensures
        pushed(list, normal, canonical, kind).0 ==> pushed(list, normal, canonical, kind).1.contains(pattern_text(kind, normal)),
        forall|t: Seq<char>| list.contains(t) ==> #[trigger] pushed(list, normal, canonical, kind).1.contains(t),
{
    let first = pattern_text(kind, normal);
    if glob_compiles(first) {
        lemma_set_insert_keeps(list, first);
        let after = set_insert(list, first);
        match canonical {
            Some(c) => {
                if glob_compiles(pattern_text(kind, c)) {
                    lemma_set_insert_keeps(after, pattern_text(kind, c));
                }
            },
            None => {},
        }
    }
}

/// Adding to a set keeps what it held.
pub proof fn lemma_set_insert_keeps(s: Seq<Seq<char>>, t: Seq<char>)
    ensures
        forall|x: Seq<char>| s.contains(x) ==> #[trigger] set_insert(s, t).contains(x),
        set_insert(s, t).contains(t),
{
    if !s.contains(t) {
        assert forall|x: Seq<char>| s.contains(x) implies #[trigger] s.push(t).contains(x) by {
            let i = choose|i: int| 0 <= i < s.len() && s[i] == x;
            assert(s.push(t)[i] == x);
        }
        assert(s.push(t)[s.len() as int] == t);
    }
}

/// The spec view of an optional text.
pub open spec fn opt_view(o: Option<String>) -> Option<Seq<char>> {
    match o {
        Some(c) => Some(c@),
        None => None,
    }
}

/// What adding each path of a list of (path, canonical form) pairs, in turn, as a pattern that
/// stands as it is, does to a list of texts: whether all succeed, and the texts after them. The
/// work stops at the first malformed pattern.
pub open spec fn pushed_all(list: Seq<Seq<char>>, paths: Seq<(String, Option<String>)>) -> (bool, Seq<Seq<char>>)
    decreases paths.len(),
{
    if paths.len() == 0 {
        (true, list)
    } else {
        let prev = pushed_all(list, paths.drop_last());
        if !prev.0 {
            prev
        } else {
            pushed(prev.1, normal_path(paths.last().0@), opt_view(paths.last().1), PatternKind::AsIs)
        }
    }
}

/// Once a prefix of the paths fails, so does the whole list.
proof fn lemma_pushed_all_fails(list: Seq<Seq<char>>, paths: Seq<(String, Option<String>)>, i: int)
    requires
        0 <= i <= paths.len(),
        !pushed_all(list, paths.take(i)).0,
    ensures
        !pushed_all(list, paths).0,
    decreases paths.len() - i,
{
    if i == paths.len() {
        assert(paths.take(i) =~= paths);
    } else {
        assert(paths.take(i + 1).drop_last() =~= paths.take(i));
        lemma_pushed_all_fails(list, paths, i + 1);
    }
}

/// The patterns of a list of (path, canonical form) pairs, each standing as it is, in a list that
/// holds each text once; [`Error::GlobPattern`] on the first malformed one.
fn push_all(paths: &Vec<(String, Option<String>)>) -> (r: Result<Vec<GlobPattern>, Error>)
    ensures
        r is Ok <==> pushed_all(Seq::empty(), paths@).0,
        r matches Ok(list) ==> texts(list@) == pushed_all(Seq::empty(), paths@).1 && texts(list@).no_duplicates()
            && forall|i: int| 0 <= i < paths@.len() ==> texts(list@).contains(pattern_text(PatternKind::AsIs, normal_path(#[trigger] paths@[i].0@))),
        r matches Err(e) ==> e is GlobPattern,
{
    let mut list: Vec<GlobPattern> = Vec::new();
    let mut i: usize = 0;
    assert(texts(list@) =~= Seq::<Seq<char>>::empty());
    assert(paths@.take(0) =~= Seq::<(String, Option<String>)>::empty());
    while i < paths.len()
        invariant
            i <= paths@.len(),
            texts(list@).no_duplicates(),
            pushed_all(Seq::empty(), paths@.take(i as int)) == (true, texts(list@)),
            forall|j: int| 0 <= j < i ==> texts(list@).contains(pattern_text(PatternKind::AsIs, normal_path(#[trigger] paths@[j].0@))),
        decreases paths@.len() - i,
    {
        let entry = &paths[i];
        let ghost before = texts(list@);
        let res = match &entry.1 {
            Some(c) => push_pattern(&mut list, entry.0.as_str(), Some(c.as_str()), PatternKind::AsIs),
            None => push_pattern(&mut list, entry.0.as_str(), None, PatternKind::AsIs),
        };
        proof {
            assert(paths@.take(i + 1).drop_last() =~= paths@.take(i as int));
            assert(paths@.take(i + 1).last() == paths@[i as int]);
            assert(opt_view(entry.1) == match &entry.1 { Some(c) => Some(c@), None => None });
        }
        match res {
            Ok(()) => {},
            Err(e) => {
                proof {
                    lemma_pushed_all_fails(Seq::empty(), paths@, i + 1);
                }
                return Err(e);
            },
        }
        proof {
            lemma_pushed_contains(before, normal_path(entry.0@), opt_view(entry.1), PatternKind::AsIs);
        }
        i += 1;
    }
    assert(paths@.take(i as int) =~= paths@);
    Ok(list)
}

/// Whether some pattern matches `path` under the options.
pub open spec fn any_match(patterns: Seq<Seq<char>>, path: Seq<char>, o: MatchOptions) -> bool {
    exists|i: int|
        0 <= i < patterns.len() && glob_matches(
            #[trigger] patterns[i],
            path,
            o.case_sensitive,
            o.require_literal_separator,
            o.require_literal_leading_dot,
        )
}

/// Whether a resolved path is allowed: it is, when no forbidden pattern and some allowed pattern
/// matches it; a path that could not be resolved is not.
pub open spec fn allowed_verdict(allowed: Seq<Seq<char>>, forbidden: Seq<Seq<char>>, resolved: Option<Seq<char>>, o: MatchOptions) -> bool {
    match resolved {
        None => false,
        Some(p) => !any_match(forbidden, p, o) && any_match(allowed, p, o),
    }
}

/// Whether a resolved path is forbidden: some forbidden pattern matches it; a path that could not
/// be resolved is.
pub open spec fn forbidden_verdict(forbidden: Seq<Seq<char>>, resolved: Option<Seq<char>>, o: MatchOptions) -> bool {
    match resolved {
        None => true,
        Some(p) => any_match(forbidden, p, o),
    }
}

/// Whether some pattern of the list matches `path`.
fn matches_any(list: &Vec<GlobPattern>, path: &str, o: MatchOptions) -> (r: bool)
    ensures
        r == any_match(texts(list@), path@, o),
{
    let mut i: usize = 0;
    while i < list.len()
        invariant
            i <= list@.len(),
            forall|j: int| 0 <= j < i ==> !glob_matches(#[trigger] texts(list@)[j], path@, o.case_sensitive, o.require_literal_separator, o.require_literal_leading_dot),
        decreases list@.len() - i,
    {
        assert(texts(list@)[i as int] == list@[i as int]@);
        if list[i].matches_with(path, o) {
            return true;
        }
        i += 1;
    }
    false
}

/// An action deferred because the listeners were running.
pub enum ScopePending<H> {
    /// Remove the listener with this id.
    Unlisten(ScopeEventId),
    /// Register a listener.
    Listen { id: ScopeEventId, listener: H },
    /// Tell the listeners of a change.
    Emit(Event),
}

/// What telling the listeners of a change does.
pub enum ScopeEmitPlan {
    /// The listeners were running: the change is told once they are done.
    Deferred,
    /// There is no listener.
    NoListener,
    /// Run the listeners with these ids with the event, then call [`Scope::end_emit`].
    Run(Vec<ScopeEventId>),
}

/// The file system scope.
pub struct Scope<H> {
    allowed_patterns: Vec<GlobPattern>,
    forbidden_patterns: Vec<GlobPattern>,
    listeners: Vec<(ScopeEventId, H)>,
    pending: Vec<ScopePending<H>>,
    dispatching: bool,
    match_options: MatchOptions,
    next_event_id: u32,
}

/// No two listeners share an id.
pub open spec fn ids_unique<H>(l: Seq<(ScopeEventId, H)>) -> bool {
    forall|i: int, j: int| 0 <= i < l.len() && 0 <= j < l.len() && i != j ==> (#[trigger] l[i]).0 != (#[trigger] l[j]).0
}

/// Keeps the listeners whose id is not `id`.
pub open spec fn listener_id_differs<H>(id: ScopeEventId) -> spec_fn((ScopeEventId, H)) -> bool {
    |e: (ScopeEventId, H)| e.0 != id
}

/// The listeners without the one of id `id`.
pub open spec fn without_listener<H>(l: Seq<(ScopeEventId, H)>, id: ScopeEventId) -> Seq<(ScopeEventId, H)> {
    l.filter(listener_id_differs(id))
}

/// Filtering keeps the ids distinct.
pub proof fn lemma_filter_ids_unique<H>(s: Seq<(ScopeEventId, H)>, p: spec_fn((ScopeEventId, H)) -> bool)
    requires
        ids_unique(s),
    ensures
        ids_unique(s.filter(p)),
    decreases s.len(),
{
    reveal(Seq::filter);
    if s.len() > 0 {
        let d = s.drop_last();
        assert(ids_unique(d)) by {
            assert forall|i: int, j: int| 0 <= i < d.len() && 0 <= j < d.len() && i != j implies (#[trigger] d[i]).0 != (#[trigger] d[j]).0 by {
                assert(d[i] == s[i] && d[j] == s[j]);
            }
        }
        lemma_filter_ids_unique(d, p);
        crate::listener::lemma_filter_subset(d, p);
        let sub = d.filter(p);
        if p(s.last()) {
            let f = s.filter(p);
            assert(f == sub.push(s.last()));
            assert forall|i: int, j: int| 0 <= i < f.len() && 0 <= j < f.len() && i != j implies (#[trigger] f[i]).0 != (#[trigger] f[j]).0 by {
                if i < sub.len() && j < sub.len() {
                    assert(f[i] == sub[i] && f[j] == sub[j]);
                } else if i < sub.len() {
                    assert(d.contains(sub[i]));
                    let k = choose|k: int| 0 <= k < d.len() && d[k] == sub[i];
                    assert(s[k] == d[k]);
                    assert(f[i] == sub[i]);
                    assert(f[j] == s[s.len() - 1]);
                } else if j < sub.len() {
                    assert(d.contains(sub[j]));
                    let k = choose|k: int| 0 <= k < d.len() && d[k] == sub[j];
                    assert(s[k] == d[k]);
                    assert(f[j] == sub[j]);
                    assert(f[i] == s[s.len() - 1]);
                }
            }
        }
    }
}

impl<H> Scope<H> {
    /// The allowed pattern texts.
    pub closed spec fn allowed(&self) -> Seq<Seq<char>> {
        texts(self.allowed_patterns@)
    }

    /// The forbidden pattern texts.
    pub closed spec fn forbidden(&self) -> Seq<Seq<char>> {
        texts(self.forbidden_patterns@)
    }

    /// The options patterns match with.
    pub closed spec fn options(&self) -> MatchOptions {
        self.match_options
    }

    /// The listeners, in registration order.
    pub closed spec fn listener_entries(&self) -> Seq<(ScopeEventId, H)> {
        self.listeners@
    }

    /// The deferred actions.
    pub closed spec fn pending_actions(&self) -> Seq<ScopePending<H>> {
        self.pending@
    }

    /// Whether the listeners are running.
    pub closed spec fn is_dispatching(&self) -> bool {
        self.dispatching
    }

    /// The id the next listener gets.
    pub closed spec fn next_id(&self) -> u32 {
        self.next_event_id
    }

    /// No pattern is held twice and no two listeners share an id.
    pub open spec fn wf(&self) -> bool {
        &&& self.allowed().no_duplicates()
        &&& self.forbidden().no_duplicates()
        &&& ids_unique(self.listener_entries())
    }

    /// A scope of the given allowed and forbidden paths, each a glob pattern, paired with the file
    /// system's canonical form of it when there is one. Each path is added in its normal form,
    /// and then in its canonical form, to a list that holds each text once. Patterns match case
    /// sensitively, with `*` never crossing a `/`, and, unless told otherwise, with a leading `.`
    /// matched only literally (dotfiles stay hidden) but on Windows (`windows`), where it is
    /// matched by wildcards too. Fails on the first malformed pattern.
    pub fn new(
        allowed_paths: &Vec<(String, Option<String>)>,
        forbidden_paths: &Vec<(String, Option<String>)>,
        require_literal_leading_dot: Option<bool>,
        windows: bool,
    ) -> (r: Result<Self, Error>)
        ensures
            r is Ok <==> pushed_all(Seq::empty(), allowed_paths@).0 && pushed_all(Seq::empty(), forbidden_paths@).0,
            r matches Ok(s) ==> {
                &&& s.wf()
                &&& s.allowed() == pushed_all(Seq::empty(), allowed_paths@).1
                &&& s.forbidden() == pushed_all(Seq::empty(), forbidden_paths@).1
                &&& s.listener_entries().len() == 0
                &&& s.pending_actions().len() == 0
                &&& !s.is_dispatching()
                &&& s.next_id() == 0
                &&& s.options().case_sensitive
                &&& s.options().require_literal_separator
                &&& s.options().require_literal_leading_dot == match require_literal_leading_dot {
                    Some(b) => b,
                    None => !windows,
                }
                &&& forall|i: int| 0 <= i < allowed_paths@.len() ==> s.allowed().contains(pattern_text(PatternKind::AsIs, normal_path(#[trigger] allowed_paths@[i].0@)))
                &&& forall|i: int| 0 <= i < forbidden_paths@.len() ==> s.forbidden().contains(pattern_text(PatternKind::AsIs, normal_path(#[trigger] forbidden_paths@[i].0@)))
            },
            r matches Err(e) ==> e is GlobPattern,
    {
        let allowed = match push_all(allowed_paths) {
            Ok(list) => list,
            Err(e) => return Err(e),
        };
        let forbidden = match push_all(forbidden_paths) {
            Ok(list) => list,
            Err(e) => return Err(e),
        };
        let dot = match require_literal_leading_dot {
            Some(b) => b,
            None => !windows,
        };
        let s = Scope {
            allowed_patterns: allowed,
            forbidden_patterns: forbidden,
            listeners: Vec::new(),
            pending: Vec::new(),
            dispatching: false,
            match_options: MatchOptions { case_sensitive: true, require_literal_separator: true, require_literal_leading_dot: dot },
            next_event_id: 0,
        };
        Ok(s)
    }

    /// The allowed patterns.
    pub fn allowed_patterns(&self) -> (r: Vec<GlobPattern>)
        ensures
            texts(r@) == self.allowed(),
    {
        let mut out: Vec<GlobPattern> = Vec::new();
        let mut i: usize = 0;
        while i < self.allowed_patterns.len()
            invariant
                i <= self.allowed_patterns@.len(),
                texts(out@) == texts(self.allowed_patterns@).take(i as int),
            decreases self.allowed_patterns@.len() - i,
        {
            let d = self.allowed_patterns[i].duplicate();
            let ghost prev = out@;
            out.push(d);
            assert(out@ =~= prev.push(d));
            assert(texts(out@) =~= texts(prev).push(d@));
            assert(texts(self.allowed_patterns@).take(i + 1) =~= texts(self.allowed_patterns@).take(i as int).push(self.allowed_patterns@[i as int]@));
            assert(texts(out@) =~= texts(self.allowed_patterns@).take(i + 1));
            i += 1;
        }
        assert(texts(self.allowed_patterns@).take(i as int) =~= texts(self.allowed_patterns@));
        out
    }

    /// The forbidden patterns.
    pub fn forbidden_patterns(&self) -> (r: Vec<GlobPattern>)
        ensures
            texts(r@) == self.forbidden(),
    {
        let mut out: Vec<GlobPattern> = Vec::new();
        let mut i: usize = 0;
        while i < self.forbidden_patterns.len()
            invariant
                i <= self.forbidden_patterns@.len(),
                texts(out@) == texts(self.forbidden_patterns@).take(i as int),
            decreases self.forbidden_patterns@.len() - i,
        {
            let d = self.forbidden_patterns[i].duplicate();
            let ghost prev = out@;
            out.push(d);
            assert(out@ =~= prev.push(d));
            assert(texts(out@) =~= texts(prev).push(d@));
            assert(texts(self.forbidden_patterns@).take(i + 1) =~= texts(self.forbidden_patterns@).take(i as int).push(self.forbidden_patterns@[i as int]@));
            assert(texts(out@) =~= texts(self.forbidden_patterns@).take(i + 1));
            i += 1;
        }
        assert(texts(self.forbidden_patterns@).take(i as int) =~= texts(self.forbidden_patterns@));
        out
    }

    /// Whether a path is allowed, given as the file system resolved it (a symbolic link read, an
    /// existing path canonicalized, its components collected back; `None`: it could not be
    /// resolved): no forbidden pattern may match it, and some allowed pattern must.
    pub fn is_allowed(&self, resolved: Option<&str>) -> (r: bool)
        ensures
            r == allowed_verdict(self.allowed(), self.forbidden(), match resolved {
                Some(p) => Some(p@),
                None => None,
            }, self.options()),
    {
        match resolved {
            None => false,
            Some(p) => {
                if matches_any(&self.forbidden_patterns, p, self.match_options) {
                    false
                } else {
                    matches_any(&self.allowed_patterns, p, self.match_options)
                }
            },
        }
    }

    /// Whether a path is forbidden, given as the file system resolved it (`None`: it could not
    /// be): some forbidden pattern matches it. A path that cannot be resolved is forbidden.
    pub fn is_forbidden(&self, resolved: Option<&str>) -> (r: bool)
        ensures
            r == forbidden_verdict(self.forbidden(), match resolved {
                Some(p) => Some(p@),
                None => None,
            }, self.options()),
    {
        match resolved {
            None => true,
            Some(p) => matches_any(&self.forbidden_patterns, p, self.match_options),
        }
    }

}

impl<H> Scope<H> {
    /// Removes the listener with id `id`, keeping the others in order.
    fn remove_listener(&mut self, id: ScopeEventId)
        requires
            ids_unique(old(self).listener_entries()),
        ensures
            ids_unique(final(self).listener_entries()),
            final(self).listener_entries() == without_listener(old(self).listener_entries(), id),
            final(self).allowed() == old(self).allowed(),
            final(self).forbidden() == old(self).forbidden(),
            final(self).options() == old(self).options(),
            final(self).pending_actions() == old(self).pending_actions(),
            final(self).is_dispatching() == old(self).is_dispatching(),
            final(self).next_id() == old(self).next_id(),
    {
        let ghost pred = listener_id_differs::<H>(id);
        let ghost original = self.listeners@;
        let mut rest: Vec<(ScopeEventId, H)> = Vec::new();
        std::mem::swap(&mut rest, &mut self.listeners);
        let mut consumed: usize = 0;
        assert(rest@.len() == rest.len());
        proof {
            reveal(Seq::filter);
            assert(original.take(0).filter(pred) =~= Seq::empty());
        }
        while rest.len() > 0
            invariant
                consumed <= original.len(),
                original.len() <= usize::MAX,
                rest@ == original.skip(consumed as int),
                self.listeners@ == original.take(consumed as int).filter(pred),
                pred == listener_id_differs::<H>(id),
                self.allowed_patterns == old(self).allowed_patterns,
                self.forbidden_patterns == old(self).forbidden_patterns,
                self.match_options == old(self).match_options,
                self.pending == old(self).pending,
                self.dispatching == old(self).dispatching,
                self.next_event_id == old(self).next_event_id,
            decreases rest@.len(),
        {
            assert(rest@.len() == original.len() - consumed);
            let entry = rest.remove(0);
            assert(entry == original[consumed as int]);
            let ghost prev = original.take(consumed as int);
            assert(original.take(consumed + 1) =~= prev.push(entry));
            assert(original.take(consumed + 1).drop_last() =~= prev);
            if entry.0 != id {
                self.listeners.push(entry);
            }
            proof {
                reveal(Seq::filter);
            }
            consumed += 1;
            assert(rest@ =~= original.skip(consumed as int));
        }
        proof {
            assert(original.take(original.len() as int) =~= original);
            lemma_filter_ids_unique(original, pred);
        }
    }

    /// Registers `listener` under `id`, replacing a listener with the same id. While the
    /// listeners run, the registration is deferred instead.
    pub fn listen_with_id(&mut self, id: ScopeEventId, listener: H)
        requires
            old(self).wf(),
        ensures
            final(self).wf(),
            final(self).allowed() == old(self).allowed(),
            final(self).forbidden() == old(self).forbidden(),
            final(self).options() == old(self).options(),
            final(self).is_dispatching() == old(self).is_dispatching(),
            final(self).next_id() == old(self).next_id(),
            old(self).is_dispatching() ==> final(self).listener_entries() == old(self).listener_entries()
                && final(self).pending_actions() == old(self).pending_actions().push(ScopePending::Listen { id, listener }),
            !old(self).is_dispatching() ==> final(self).listener_entries() == without_listener(old(self).listener_entries(), id).push((id, listener))
                && final(self).pending_actions() == old(self).pending_actions(),
    {
        if self.dispatching {
            self.pending.push(ScopePending::Listen { id, listener });
        } else {
            self.remove_listener(id);
            let ghost before = self.listeners@;
            proof {
                old(self).listener_entries().filter_lemma(listener_id_differs::<H>(id));
            }
            self.listeners.push((id, listener));
            proof {
                let after = self.listeners@;
                assert forall|i: int, j: int| 0 <= i < after.len() && 0 <= j < after.len() && i != j implies (#[trigger] after[i]).0 != (#[trigger] after[j]).0 by {
                    if i < before.len() && j < before.len() {
                        assert(after[i] == before[i] && after[j] == before[j]);
                    } else if i < before.len() {
                        assert(after[i] == before[i]);
                    } else {
                        assert(after[j] == before[j]);
                    }
                }
            }
        }
    }

    /// Registers `listener` under a fresh id, which it returns.
    pub fn listen(&mut self, listener: H) -> (r: ScopeEventId)
        requires
            old(self).wf(),
        ensures
            r == old(self).next_id(),
            final(self).next_id() == (if r == u32::MAX { 0 } else { (r + 1) as u32 }),
            final(self).wf(),
            final(self).allowed() == old(self).allowed(),
            final(self).forbidden() == old(self).forbidden(),
            final(self).is_dispatching() == old(self).is_dispatching(),
            old(self).is_dispatching() ==> final(self).listener_entries() == old(self).listener_entries()
                && final(self).pending_actions() == old(self).pending_actions().push(ScopePending::Listen { id: r, listener }),
            !old(self).is_dispatching() ==> final(self).listener_entries() == without_listener(old(self).listener_entries(), r).push((r, listener))
                && final(self).pending_actions() == old(self).pending_actions(),
    {
        let id = self.next_event_id;
        self.next_event_id = if id == u32::MAX { 0 } else { id + 1 };
        self.listen_with_id(id, listener);
        id
    }

    /// Removes the listener with id `id`. While the listeners run, the removal is deferred
    /// instead.
    pub fn unlisten(&mut self, id: ScopeEventId)
        requires
            old(self).wf(),
        ensures
            final(self).wf(),
            final(self).allowed() == old(self).allowed(),
            final(self).forbidden() == old(self).forbidden(),
            final(self).is_dispatching() == old(self).is_dispatching(),
            final(self).next_id() == old(self).next_id(),
            old(self).is_dispatching() ==> final(self).listener_entries() == old(self).listener_entries()
                && final(self).pending_actions() == old(self).pending_actions().push(ScopePending::Unlisten(id)),
            !old(self).is_dispatching() ==> final(self).listener_entries() == without_listener(old(self).listener_entries(), id)
                && final(self).pending_actions() == old(self).pending_actions(),
    {
        if self.dispatching {
            self.pending.push(ScopePending::Unlisten(id));
        } else {
            self.remove_listener(id);
        }
    }

    /// Starts telling the listeners of `event`. While they run, the event is deferred and
    /// [`ScopeEmitPlan::Deferred`] comes back; otherwise every listener's id comes back, in
    /// registration order, and they are now running until [`Scope::end_emit`].
    pub fn begin_emit(&mut self, event: Event) -> (r: ScopeEmitPlan)
        requires
            old(self).wf(),
        ensures
            final(self).wf(),
            final(self).allowed() == old(self).allowed(),
            final(self).forbidden() == old(self).forbidden(),
            final(self).options() == old(self).options(),
            final(self).listener_entries() == old(self).listener_entries(),
            final(self).next_id() == old(self).next_id(),
            old(self).is_dispatching() ==> r is Deferred && final(self).is_dispatching()
                && final(self).pending_actions() == old(self).pending_actions().push(ScopePending::Emit(event)),
            !old(self).is_dispatching() ==> final(self).pending_actions() == old(self).pending_actions(),
            !old(self).is_dispatching() && old(self).listener_entries().len() == 0 ==> r is NoListener && !final(self).is_dispatching(),
            !old(self).is_dispatching() && old(self).listener_entries().len() > 0 ==> (r matches ScopeEmitPlan::Run(ids)
                && ids@ == old(self).listener_entries().map_values(|e: (ScopeEventId, H)| e.0)) && final(self).is_dispatching(),
    {
        if self.dispatching {
            self.pending.push(ScopePending::Emit(event));
            return ScopeEmitPlan::Deferred;
        }
        if self.listeners.len() == 0 {
            return ScopeEmitPlan::NoListener;
        }
        let mut ids: Vec<ScopeEventId> = Vec::new();
        let mut i: usize = 0;
        while i < self.listeners.len()
            invariant
                i <= self.listeners@.len(),
                ids@ == self.listeners@.take(i as int).map_values(|e: (ScopeEventId, H)| e.0),
            decreases self.listeners@.len() - i,
        {
            ids.push(self.listeners[i].0);
            assert(self.listeners@.take(i + 1).map_values(|e: (ScopeEventId, H)| e.0) =~= self.listeners@.take(i as int).map_values(|e: (ScopeEventId, H)| e.0).push(self.listeners@[i as int].0));
            i += 1;
        }
        assert(self.listeners@.take(i as int) =~= self.listeners@);
        self.dispatching = true;
        ScopeEmitPlan::Run(ids)
    }

    /// Ends telling the listeners: they no longer run, and the actions deferred meanwhile come
    /// back, in the order they were made, for the caller to apply.
    pub fn end_emit(&mut self) -> (r: Vec<ScopePending<H>>)
        ensures
            r@ == old(self).pending_actions(),
            final(self).pending_actions().len() == 0,
            !final(self).is_dispatching(),
            final(self).allowed() == old(self).allowed(),
            final(self).forbidden() == old(self).forbidden(),
            final(self).options() == old(self).options(),
            final(self).listener_entries() == old(self).listener_entries(),
            final(self).next_id() == old(self).next_id(),
            final(self).wf() == old(self).wf(),
    {
        self.dispatching = false;
        let mut taken: Vec<ScopePending<H>> = Vec::new();
        std::mem::swap(&mut taken, &mut self.pending);
        taken
    }

    /// The listener with id `id`, if there is one.
    pub fn listener(&self, id: ScopeEventId) -> (r: Option<&H>)
        ensures
            r is None <==> !(exists|i: int| 0 <= i < self.listener_entries().len() && (#[trigger] self.listener_entries()[i]).0 == id),
            r matches Some(h) ==> exists|i: int| 0 <= i < self.listener_entries().len() && (#[trigger] self.listener_entries()[i]) == (id, *h),
    {
        let mut i: usize = 0;
        while i < self.listeners.len()
            invariant
                i <= self.listeners@.len(),
                forall|j: int| 0 <= j < i ==> (#[trigger] self.listener_entries()[j]).0 != id,
            decreases self.listeners@.len() - i,
        {
            if self.listeners[i].0 == id {
                assert(self.listener_entries()[i as int] == (id, self.listeners@[i as int].1));
                return Some(&self.listeners[i].1);
            }
            i += 1;
        }
        None
    }

    /// Adds patterns to one of the lists: the path itself, matched literally, and, for a
    /// directory, what lies in it.
    fn add_patterns(&mut self, forbid: bool, path: &str, canonical: Option<&str>, directory: Option<bool>) -> (r: Result<(), Error>)
        requires
            old(self).wf(),
        ensures
            final(self).wf(),
            final(self).listener_entries() == old(self).listener_entries(),
            final(self).pending_actions() == old(self).pending_actions(),
            final(self).is_dispatching() == old(self).is_dispatching(),
            final(self).options() == old(self).options(),
            final(self).next_id() == old(self).next_id(),
            forbid ==> final(self).allowed() == old(self).allowed(),
            !forbid ==> final(self).forbidden() == old(self).forbidden(),
            ({
                let c = match canonical {
                    Some(c) => Some(c@),
                    None => None,
                };
                let list = if forbid { old(self).forbidden() } else { old(self).allowed() };
                let after = if forbid { final(self).forbidden() } else { final(self).allowed() };
                let first = pushed(list, normal_path(path@), c, PatternKind::Literal);
                match directory {
                    None => (r is Ok <==> first.0) && after == first.1,
                    Some(recursive) => {
                        let second = pushed(first.1, normal_path(path@), c, PatternKind::Children { recursive });
                        &&& (r is Ok <==> first.0 && second.0)
                        &&& after == (if first.0 { second.1 } else { first.1 })
                    },
                }
            }),
            r matches Err(e) ==> e is GlobPattern,
            literal_of(pattern_text(PatternKind::Literal, normal_path(path@)), normal_path(path@)),
            glob_compiles(pattern_text(PatternKind::Literal, normal_path(path@))),
    {
        let mut list: Vec<GlobPattern> = Vec::new();
        if forbid {
            std::mem::swap(&mut list, &mut self.forbidden_patterns);
        } else {
            std::mem::swap(&mut list, &mut self.allowed_patterns);
        }
        let first = push_pattern(&mut list, path, canonical, PatternKind::Literal);
        let r = match first {
            Err(e) => Err(e),
            Ok(()) => match directory {
                None => Ok(()),
                Some(recursive) => push_pattern(&mut list, path, canonical, PatternKind::Children { recursive }),
            },
        };
        if forbid {
            std::mem::swap(&mut list, &mut self.forbidden_patterns);
        } else {
            std::mem::swap(&mut list, &mut self.allowed_patterns);
        }
        r
    }

    /// Allows the directory at `path` (`canonical`: the file system's canonical form of its
    /// normal form, when there is one): the directory itself and its entries, or everything below
    /// it when `recursive`. Then the listeners are told [`Event::PathAllowed`].
    pub fn allow_directory(&mut self, path: &str, canonical: Option<&str>, recursive: bool) -> (r: Result<ScopeEmitPlan, Error>)
        requires
            old(self).wf(),
        ensures
            final(self).wf(),
            final(self).forbidden() == old(self).forbidden(),
            ({
                let c = match canonical {
                    Some(c) => Some(c@),
                    None => None,
                };
                let first = pushed(old(self).allowed(), normal_path(path@), c, PatternKind::Literal);
                let second = pushed(first.1, normal_path(path@), c, PatternKind::Children { recursive });
                &&& (r is Ok <==> first.0 && second.0)
                &&& final(self).allowed() == (if first.0 { second.1 } else { first.1 })
            }),
            r is Err ==> final(self).listener_entries() == old(self).listener_entries() && final(self).pending_actions() == old(self).pending_actions(),
            r matches Err(e) ==> e is GlobPattern,
            r is Ok ==> scope_emitted(*old(self), *final(self), (true, path@), r->Ok_0),
            r is Ok ==> forall|o: MatchOptions|
                o.case_sensitive && !any_match(final(self).forbidden(), normal_path(path@), o) ==> #[trigger] allowed_verdict(
                    final(self).allowed(),
                    final(self).forbidden(),
                    Some(normal_path(path@)),
                    o,
                ),
    {
        self.add_patterns(false, path, canonical, Some(recursive))?;
        proof {
            let c = match canonical {
                Some(c) => Some(c@),
                None => None,
            };
            let n = normal_path(path@);
            lemma_pushed_contains(old(self).allowed(), n, c, PatternKind::Literal);
            lemma_pushed_contains(pushed(old(self).allowed(), n, c, PatternKind::Literal).1, n, c, PatternKind::Children { recursive });
            assert forall|o: MatchOptions| o.case_sensitive implies any_match(self.allowed(), n, o) by {
                lemma_literal_matches(self.allowed(), n, o);
            }
        }
        let ghost mid = self.pending_actions();
        let event = Event::PathAllowed(String::from_str(path));
        assert(event_view(event).1 == path@);
        let plan = self.begin_emit(event);
        proof {
            if old(self).is_dispatching() {
                assert(self.pending_actions().drop_last() =~= mid);
            }
        }
        Ok(plan)
    }

    /// Allows the file at `path` (`canonical`: the file system's canonical form of its normal
    /// form, when there is one), matched literally. Then the listeners are told
    /// [`Event::PathAllowed`].
    pub fn allow_file(&mut self, path: &str, canonical: Option<&str>) -> (r: Result<ScopeEmitPlan, Error>)
        requires
            old(self).wf(),
        ensures
            final(self).wf(),
            final(self).forbidden() == old(self).forbidden(),
            ({
                let first = pushed(old(self).allowed(), normal_path(path@), match canonical {
                    Some(c) => Some(c@),
                    None => None,
                }, PatternKind::Literal);
                &&& (r is Ok <==> first.0)
                &&& final(self).allowed() == first.1
            }),
            r is Err ==> final(self).listener_entries() == old(self).listener_entries() && final(self).pending_actions() == old(self).pending_actions(),
            r matches Err(e) ==> e is GlobPattern,
            r is Ok ==> scope_emitted(*old(self), *final(self), (true, path@), r->Ok_0),
            r is Ok ==> forall|o: MatchOptions|
                o.case_sensitive && !any_match(final(self).forbidden(), normal_path(path@), o) ==> #[trigger] allowed_verdict(
                    final(self).allowed(),
                    final(self).forbidden(),
                    Some(normal_path(path@)),
                    o,
                ),
    {
        self.add_patterns(false, path, canonical, None)?;
        proof {
            let c = match canonical {
                Some(c) => Some(c@),
                None => None,
            };
            lemma_pushed_contains(old(self).allowed(), normal_path(path@), c, PatternKind::Literal);
            assert forall|o: MatchOptions| o.case_sensitive implies any_match(self.allowed(), normal_path(path@), o) by {
                lemma_literal_matches(self.allowed(), normal_path(path@), o);
            }
        }
        let ghost mid = self.pending_actions();
        let event = Event::PathAllowed(String::from_str(path));
        assert(event_view(event).1 == path@);
        let plan = self.begin_emit(event);
        proof {
            if old(self).is_dispatching() {
                assert(self.pending_actions().drop_last() =~= mid);
            }
        }
        Ok(plan)
    }

    /// Forbids the directory at `path` (`canonical` as for [`Scope::allow_directory`]): the
    /// directory itself and its entries, or everything below it when `recursive`. A forbidden
    /// path is never allowed. Then the listeners are told [`Event::PathForbidden`].
    pub fn forbid_directory(&mut self, path: &str, canonical: Option<&str>, recursive: bool) -> (r: Result<ScopeEmitPlan, Error>)
        requires
            old(self).wf(),
        ensures
            final(self).wf(),
            final(self).allowed() == old(self).allowed(),
            ({
                let c = match canonical {
                    Some(c) => Some(c@),
                    None => None,
                };
                let first = pushed(old(self).forbidden(), normal_path(path@), c, PatternKind::Literal);
                let second = pushed(first.1, normal_path(path@), c, PatternKind::Children { recursive });
                &&& (r is Ok <==> first.0 && second.0)
                &&& final(self).forbidden() == (if first.0 { second.1 } else { first.1 })
            }),
            r is Err ==> final(self).listener_entries() == old(self).listener_entries() && final(self).pending_actions() == old(self).pending_actions(),
            r matches Err(e) ==> e is GlobPattern,
            r is Ok ==> scope_emitted(*old(self), *final(self), (false, path@), r->Ok_0),
            r is Ok ==> forall|o: MatchOptions|
                o.case_sensitive ==> !#[trigger] allowed_verdict(final(self).allowed(), final(self).forbidden(), Some(normal_path(path@)), o),
    {
        self.add_patterns(true, path, canonical, Some(recursive))?;
        proof {
            let c = match canonical {
                Some(c) => Some(c@),
                None => None,
            };
            let n = normal_path(path@);
            lemma_pushed_contains(old(self).forbidden(), n, c, PatternKind::Literal);
            lemma_pushed_contains(pushed(old(self).forbidden(), n, c, PatternKind::Literal).1, n, c, PatternKind::Children { recursive });
            assert forall|o: MatchOptions| o.case_sensitive implies any_match(self.forbidden(), n, o) by {
                lemma_literal_matches(self.forbidden(), n, o);
            }
        }
        let ghost mid = self.pending_actions();
        let event = Event::PathForbidden(String::from_str(path));
        assert(event_view(event).1 == path@);
        let plan = self.begin_emit(event);
        proof {
            if old(self).is_dispatching() {
                assert(self.pending_actions().drop_last() =~= mid);
            }
        }
        Ok(plan)
    }

    /// Forbids the file at `path` (`canonical` as for [`Scope::allow_file`]), matched literally.
    /// A forbidden path is never allowed. Then the listeners are told [`Event::PathForbidden`].
    pub fn forbid_file(&mut self, path: &str, canonical: Option<&str>) -> (r: Result<ScopeEmitPlan, Error>)
        requires
            old(self).wf(),
        ensures
            final(self).wf(),
            final(self).allowed() == old(self).allowed(),
            ({
                let first = pushed(old(self).forbidden(), normal_path(path@), match canonical {
                    Some(c) => Some(c@),
                    None => None,
                }, PatternKind::Literal);
                &&& (r is Ok <==> first.0)
                &&& final(self).forbidden() == first.1
            }),
            r is Err ==> final(self).listener_entries() == old(self).listener_entries() && final(self).pending_actions() == old(self).pending_actions(),
            r matches Err(e) ==> e is GlobPattern,
            r is Ok ==> scope_emitted(*old(self), *final(self), (false, path@), r->Ok_0),
            r is Ok ==> forall|o: MatchOptions|
                o.case_sensitive ==> !#[trigger] allowed_verdict(final(self).allowed(), final(self).forbidden(), Some(normal_path(path@)), o),
    {
        self.add_patterns(true, path, canonical, None)?;
        proof {
            let c = match canonical {
                Some(c) => Some(c@),
                None => None,
            };
            lemma_pushed_contains(old(self).forbidden(), normal_path(path@), c, PatternKind::Literal);
            assert forall|o: MatchOptions| o.case_sensitive implies any_match(self.forbidden(), normal_path(path@), o) by {
                lemma_literal_matches(self.forbidden(), normal_path(path@), o);
            }
        }
        let ghost mid = self.pending_actions();
        let event = Event::PathForbidden(String::from_str(path));
        assert(event_view(event).1 == path@);
        let plan = self.begin_emit(event);
        proof {
            if old(self).is_dispatching() {
                assert(self.pending_actions().drop_last() =~= mid);
            }
        }
        Ok(plan)
    }
}

/// The model of a change: whether it allows (or forbids), and the path.
pub open spec fn event_view(e: Event) -> (bool, Seq<char>) {
    match e {
        Event::PathAllowed(p) => (true, p@),
        Event::PathForbidden(p) => (false, p@),
    }
}

/// How telling the listeners of a change (`event`) takes a scope from `before` to `after`, with
/// the plan it gives: deferred while the listeners run, otherwise every listener is named.
pub open spec fn scope_emitted<H>(before: Scope<H>, after: Scope<H>, event: (bool, Seq<char>), plan: ScopeEmitPlan) -> bool {
    &&& after.listener_entries() == before.listener_entries()
    &&& after.next_id() == before.next_id()
    &&& before.is_dispatching() ==> {
        &&& plan is Deferred
        &&& after.is_dispatching()
        &&& after.pending_actions().len() == before.pending_actions().len() + 1
        &&& after.pending_actions().drop_last() == before.pending_actions()
        &&& after.pending_actions().last() matches ScopePending::Emit(ev) && event_view(ev) == event
    }
    &&& !before.is_dispatching() ==> after.pending_actions() == before.pending_actions()
    &&& !before.is_dispatching() && before.listener_entries().len() == 0 ==> plan is NoListener && !after.is_dispatching()
    &&& !before.is_dispatching() && before.listener_entries().len() > 0 ==> (plan matches ScopeEmitPlan::Run(ids)
        && ids@ == before.listener_entries().map_values(|e: (ScopeEventId, H)| e.0)) && after.is_dispatching()
}

/// The scopes of the app: the asset protocol's file system scope.
pub struct Scopes<H> {
    /// The scope the asset protocol checks before serving a file.
    pub asset_protocol: Scope<H>,
}

impl<H> Scopes<H> {
    /// Allows a directory on the scopes, as [`Scope::allow_directory`] does.
    pub fn allow_directory(&mut self, path: &str, canonical: Option<&str>, recursive: bool) -> (r: Result<ScopeEmitPlan, Error>)
        requires
            old(self).asset_protocol.wf(),
        ensures
            final(self).asset_protocol.wf(),
            final(self).asset_protocol.forbidden() == old(self).asset_protocol.forbidden(),
            ({
                let c = match canonical {
                    Some(c) => Some(c@),
                    None => None,
                };
                let first = pushed(old(self).asset_protocol.allowed(), normal_path(path@), c, PatternKind::Literal);
                let second = pushed(first.1, normal_path(path@), c, PatternKind::Children { recursive });
                &&& (r is Ok <==> first.0 && second.0)
                &&& final(self).asset_protocol.allowed() == (if first.0 { second.1 } else { first.1 })
            }),
            r is Ok ==> scope_emitted(old(self).asset_protocol, final(self).asset_protocol, (true, path@), r->Ok_0),
    {
        self.asset_protocol.allow_directory(path, canonical, recursive)
    }

    /// Allows a file on the scopes, as [`Scope::allow_file`] does.
    pub fn allow_file(&mut self, path: &str, canonical: Option<&str>) -> (r: Result<ScopeEmitPlan, Error>)
        requires
            old(self).asset_protocol.wf(),
        ensures
            final(self).asset_protocol.wf(),
            final(self).asset_protocol.forbidden() == old(self).asset_protocol.forbidden(),
            ({
                let first = pushed(old(self).asset_protocol.allowed(), normal_path(path@), match canonical {
                    Some(c) => Some(c@),
                    None => None,
                }, PatternKind::Literal);
                &&& (r is Ok <==> first.0)
                &&& final(self).asset_protocol.allowed() == first.1
            }),
            r is Ok ==> scope_emitted(old(self).asset_protocol, final(self).asset_protocol, (true, path@), r->Ok_0),
    {
        self.asset_protocol.allow_file(path, canonical)
    }

    /// Forbids a file on the scopes, as [`Scope::forbid_file`] does.
    pub fn forbid_file(&mut self, path: &str, canonical: Option<&str>) -> (r: Result<ScopeEmitPlan, Error>)
        requires
            old(self).asset_protocol.wf(),
        ensures
            final(self).asset_protocol.wf(),
            final(self).asset_protocol.allowed() == old(self).asset_protocol.allowed(),
            ({
                let first = pushed(old(self).asset_protocol.forbidden(), normal_path(path@), match canonical {
                    Some(c) => Some(c@),
                    None => None,
                }, PatternKind::Literal);
                &&& (r is Ok <==> first.0)
                &&& final(self).asset_protocol.forbidden() == first.1
            }),
            r is Ok ==> scope_emitted(old(self).asset_protocol, final(self).asset_protocol, (false, path@), r->Ok_0),
    {
        self.asset_protocol.forbid_file(path, canonical)
    }
}

} // verus!
