//! The path commands of the frontend: normalizing, joining and resolving paths, and their
//! directory and extension.

use vstd::prelude::*;

use crate::error::Error;
use crate::path::{join_path, joined};
use crate::text::{concat_all, ends_with_char, has_prefix, push_char, str_eq};

verus! {

/// A component of a path, as `std::path::Path::components` gives it.
#[derive(Clone, Debug, PartialEq, Eq)]
pub enum PathComponent {
    /// A Windows prefix such as `C:`.
    Prefix(String),
    /// The root `/`.
    RootDir,
    /// A leading `.`.
    CurDir,
    /// `..`.
    ParentDir,
    /// A name.
    Normal(String),
}

/// The model of a [`PathComponent`].
pub enum ComponentModel {
    Prefix(Seq<char>),
    RootDir,
    CurDir,
    ParentDir,
    Normal(Seq<char>),
}

impl View for PathComponent {
    type V = ComponentModel;

    open spec fn view(&self) -> ComponentModel {
        match self {
            PathComponent::Prefix(p) => ComponentModel::Prefix(p@),
            PathComponent::RootDir => ComponentModel::RootDir,
            PathComponent::CurDir => ComponentModel::CurDir,
            PathComponent::ParentDir => ComponentModel::ParentDir,
            PathComponent::Normal(n) => ComponentModel::Normal(n@),
        }
    }
}

/// `Path::components`: the components of a path.
pub uninterp spec fn path_components(path: Seq<char>) -> Seq<ComponentModel>;

/// `Path::components`, each component moved into a [`PathComponent`]. A prefix can only be the
/// first component.
#[verifier::external_body]
fn components_of(path: &str) -> (r: Vec<PathComponent>)
    ensures
        r@.map_values(|c: PathComponent| c@) == path_components(path@),
        forall|i: int| 0 < i < r@.len() ==> !(#[trigger] r@[i] is Prefix),
{
    std::path::Path::new(path).components().map(|c| match c {
        std::path::Component::Prefix(p) => PathComponent::Prefix(p.as_os_str().to_string_lossy().into_owned()),
        std::path::Component::RootDir => PathComponent::RootDir,
        std::path::Component::CurDir => PathComponent::CurDir,
        std::path::Component::ParentDir => PathComponent::ParentDir,
        std::path::Component::Normal(n) => PathComponent::Normal(n.to_string_lossy().into_owned()),
    }).collect()
}

/// `PathBuf::pop`: the path without its last component (unchanged when it has none to drop).
pub uninterp spec fn path_popped(path: Seq<char>) -> Seq<char>;

/// `PathBuf::pop` on a path.
#[verifier::external_body]
fn pop_path(path: &str) -> (r: String)
    ensures
        r@ == path_popped(path@),
{
    let mut p = std::path::PathBuf::from(path);
    p.pop();
    p.to_string_lossy().into_owned()
}

/// `dunce::simplified`: the path, without the `\\?\` of a verbatim Windows disk path.
pub uninterp spec fn simplified_path(path: Seq<char>) -> Seq<char>;

/// `dunce::simplified` on a path; a path that does not begin with `\\?\` comes back unchanged.
#[verifier::external_body]
fn simplify(path: &str) -> (r: String)
    ensures
        r@ == simplified_path(path@),
        !has_prefix(path@, "\\\\?\\"@) ==> r@ == path@,
{
    dunce::simplified(std::path::Path::new(path)).to_string_lossy().into_owned()
}

/// `Path::parent`: the path without its final component, if it has one.
pub uninterp spec fn path_parent(path: Seq<char>) -> Option<Seq<char>>;

/// `Path::parent` of a path.
#[verifier::external_body]
fn parent_of(path: &str) -> (r: Option<String>)
    ensures
        r matches Some(p) ==> path_parent(path@) == Some(p@),
        r is None ==> path_parent(path@) is None,
{
    std::path::Path::new(path).parent().map(|p| p.to_string_lossy().into_owned())
}

/// `Path::extension`: the extension of the final component, if it has one.
pub uninterp spec fn path_extension(path: Seq<char>) -> Option<Seq<char>>;

/// `Path::extension` of a path.
#[verifier::external_body]
fn extension_of(path: &str) -> (r: Option<String>)
    ensures
        r matches Some(e) ==> path_extension(path@) == Some(e@),
        r is None ==> path_extension(path@) is None,
{
    std::path::Path::new(path).extension().map(|e| e.to_string_lossy().into_owned())
}

/// A name appended as text: after a `/` unless the path is empty or ends with a separator.
pub open spec fn appended(path: Seq<char>, name: Seq<char>) -> Seq<char> {
    (if path.len() > 0 && path.last() != '/' && path.last() != '\\' { path.push('/') } else { path }) + name
}

/// One step of normalizing: the root makes the path `/`, `.` is dropped, `..` drops the last
/// component, and a name is appended (as text when `textual`, else as `PathBuf::push` does).
pub open spec fn normalize_step(path: Seq<char>, c: ComponentModel, textual: bool) -> Seq<char> {
    match c {
        ComponentModel::Prefix(_) => path,
        ComponentModel::RootDir => joined(path, "/"@),
        ComponentModel::CurDir => path,
        ComponentModel::ParentDir => path_popped(path),
        ComponentModel::Normal(n) => if textual { appended(path, n) } else { joined(path, n) },
    }
}

/// The steps of normalizing applied to the components, in order, from `start`.
pub open spec fn normalized_from(start: Seq<char>, cs: Seq<ComponentModel>, textual: bool) -> Seq<char>
    decreases cs.len(),
{
    if cs.len() == 0 {
        start
    } else {
        normalize_step(normalized_from(start, cs.drop_last(), textual), cs.last(), textual)
    }
}

/// A path normalized component by component, from its prefix (if it has one) or from nothing.
pub open spec fn normalized(path: Seq<char>, textual: bool) -> Seq<char> {
    let cs = path_components(path);
    if cs.len() > 0 && cs[0] is Prefix {
        normalized_from(cs[0]->Prefix_0, cs.drop_first(), textual)
    } else {
        normalized_from(Seq::empty(), cs, textual)
    }
}

fn normalize_components(path: &str, textual: bool) -> (r: String)
    ensures
        r@ == normalized(path@, textual),
{
    let cs = components_of(path);
    let ghost model = cs@.map_values(|c: PathComponent| c@);
    let mut start: usize = 0;
    let mut ret = String::new();
    if cs.len() > 0 {
        match &cs[0] {
            PathComponent::Prefix(p) => {
                ret = p.clone();
                start = 1;
            },
            _ => {},
        }
    }
    let ghost rest = model.subrange(start as int, model.len() as int);
    assert(start == 1 ==> rest =~= model.drop_first());
    assert(start == 0 ==> rest =~= model);
    let mut i: usize = start;
    while i < cs.len()
        invariant
            start <= i <= cs@.len(),
            model == cs@.map_values(|c: PathComponent| c@),
            rest == model.subrange(start as int, model.len() as int),
            ret@ == normalized_from(if start == 1 { model[0]->Prefix_0 } else { Seq::empty() }, model.subrange(start as int, i as int), textual),
        decreases cs@.len() - i,
    {
        assert(model.subrange(start as int, i + 1).drop_last() =~= model.subrange(start as int, i as int));
        match &cs[i] {
            PathComponent::Prefix(_) => {},
            PathComponent::RootDir => {
                ret = join_path(ret.as_str(), "/");
            },
            PathComponent::CurDir => {},
            PathComponent::ParentDir => {
                ret = pop_path(ret.as_str());
            },
            PathComponent::Normal(n) => {
                if textual {
                    if !ret.as_str().is_empty() && !ends_with_char(ret.as_str(), '/') && !ends_with_char(ret.as_str(), '\\') {
                        push_char(&mut ret, '/');
                    }
                    ret.append(n.as_str());
                } else {
                    ret = join_path(ret.as_str(), n.as_str());
                }
            },
        }
        i += 1;
    }
    assert(model.subrange(start as int, cs@.len() as int) =~= rest);
    ret
}

/// Normalizes a path as the frontend's `normalize` does: `.` components and trailing separators
/// dropped, `..` resolved against what precedes it, names joined with `/`; `..` and `.` alone stay
/// as they are, and a trailing separator of the input is kept.
pub open spec fn normalize_text(path: Seq<char>) -> Seq<char> {
    let p = simplified_path(normalized(path, true));
    if p.len() == 0 && path == ".."@ {
        ".."@
    } else if p.len() == 0 && path == "."@ {
        "."@
    } else if (path.len() > 0 && (path.last() == '/' || path.last() == '\\'))
        && (!(p.len() > 0 && p.last() == '/') || !(p.len() > 0 && p.last() == '\\')) {
        p.push('/')
    } else {
        p
    }
}

/// The `normalize` command (see [`normalize_text`]).
pub fn normalize(path: &str) -> (r: String)
    ensures
        r@ == normalize_text(path@),
{
    let n = normalize_components(path, true);
    let mut p = simplify(n.as_str());
    if p.as_str().is_empty() && str_eq(path, "..") {
        String::from_str("..")
    } else if p.as_str().is_empty() && str_eq(path, ".") {
        String::from_str(".")
    } else {
        if (ends_with_char(path, '/') || ends_with_char(path, '\\'))
            && (!ends_with_char(p.as_str(), '/') || !ends_with_char(p.as_str(), '\\')) {
            push_char(&mut p, '/');
        }
        p
    }
}

/// A path with a separator at its end (`/` added unless it ends with `/` or `\`).
pub open spec fn with_trailing_separator(p: Seq<char>) -> Seq<char> {
    if p.len() > 0 && (p.last() == '/' || p.last() == '\\') { p } else { p.push('/') }
}

/// Joins paths as the frontend's `join` does: each given a trailing separator, put together,
/// normalized as text; `.` when nothing is left.
pub open spec fn join_text(paths: Seq<Seq<char>>) -> Seq<char> {
    let all = concat_all(paths.map_values(|p: Seq<char>| with_trailing_separator(p)));
    let p = simplified_path(normalized(all, true));
    if p.len() == 0 { "."@ } else { p }
}

/// The `join` command (see [`join_text`]).
pub fn join(paths: &Vec<String>) -> (r: String)
    ensures
        r@ == join_text(paths@.map_values(|p: String| p@)),
{
    let ghost texts = paths@.map_values(|p: String| p@);
    let mut all = String::new();
    let mut i: usize = 0;
    while i < paths.len()
        invariant
            i <= paths@.len(),
            texts == paths@.map_values(|p: String| p@),
            all@ == concat_all(texts.take(i as int).map_values(|p: Seq<char>| with_trailing_separator(p))),
        decreases paths@.len() - i,
    {
        let p = paths[i].as_str();
        assert(texts.take(i + 1).map_values(|p: Seq<char>| with_trailing_separator(p)).drop_last()
            =~= texts.take(i as int).map_values(|p: Seq<char>| with_trailing_separator(p)));
        all.append(p);
        if !ends_with_char(p, '/') && !ends_with_char(p, '\\') {
            push_char(&mut all, '/');
        }
        i += 1;
    }
    assert(texts.take(paths@.len() as int) =~= texts);
    let n = normalize_components(all.as_str(), true);
    let p = simplify(n.as_str());
    if p.as_str().is_empty() {
        String::from_str(".")
    } else {
        p
    }
}

/// The `resolve` command, from the current directory `cwd`: each path pushed in turn (an
/// absolute one replaces what came before), then normalized.
pub open spec fn resolve_text(cwd: Seq<char>, paths: Seq<Seq<char>>) -> Seq<char> {
    simplified_path(normalized(crate::path::joined_all(cwd, paths), false))
}

/// The `resolve` command, given the current directory.
pub fn resolve(cwd: &str, paths: &Vec<String>) -> (r: String)
    ensures
        r@ == resolve_text(cwd@, paths@.map_values(|p: String| p@)),
{
    let ghost texts = paths@.map_values(|p: String| p@);
    let mut path = String::from_str(cwd);
    let mut i: usize = 0;
    while i < paths.len()
        invariant
            i <= paths@.len(),
            texts == paths@.map_values(|p: String| p@),
            path@ == crate::path::joined_all(cwd@, texts.take(i as int)),
        decreases paths@.len() - i,
    {
        assert(texts.take(i + 1).drop_last() =~= texts.take(i as int));
        path = join_path(path.as_str(), paths[i].as_str());
        i += 1;
    }
    assert(texts.take(paths@.len() as int) =~= texts);
    let n = normalize_components(path.as_str(), false);
    simplify(n.as_str())
}

/// The `dirname` command: the parent of the path; [`Error::NoParent`] when it has none.
pub fn dirname(path: &str) -> (r: Result<String, Error>)
    ensures
        match path_parent(path@) {
            Some(p) => r matches Ok(d) && d@ == simplified_path(p),
            None => r == Err::<String, Error>(Error::NoParent),
        },
{
    match parent_of(path) {
        Some(p) => Ok(simplify(p.as_str())),
        None => Err(Error::NoParent),
    }
}

/// The `extname` command: the extension of the path; [`Error::NoExtension`] when it has none.
pub fn extname(path: &str) -> (r: Result<String, Error>)
    ensures
        match path_extension(path@) {
            Some(e) => r matches Ok(x) && x@ == e,
            None => r == Err::<String, Error>(Error::NoExtension),
        },
{
    match extension_of(path) {
        Some(e) => Ok(e),
        None => Err(Error::NoExtension),
    }
}

} // verus!
