//! Unix shell style patterns (`*`, `?`, `[...]`, `**`), compiled and matched by the `glob` crate.

use vstd::prelude::*;


verus! {

#[verifier::external_type_specification]
#[verifier::external_body]
pub struct ExGlobPattern(glob::Pattern);

#[verifier::external_type_specification]
#[verifier::external_body]
pub struct ExGlobPatternError(glob::PatternError);

/// Whether `pattern` is a well-formed glob pattern (what `glob::Pattern::new` accepts).
pub uninterp spec fn glob_compiles(pattern: Seq<char>) -> bool;

/// Whether `input` matches the glob `pattern` under the given match options
/// (what `glob::Pattern::matches_with` answers).
pub uninterp spec fn glob_matches(
    pattern: Seq<char>,
    input: Seq<char>,
    case_sensitive: bool,
    require_literal_separator: bool,
    require_literal_leading_dot: bool,
) -> bool;

/// Options that change how a pattern matches (mirrors `glob::MatchOptions`).
#[derive(Clone, Copy, Debug, PartialEq, Eq)]
pub struct MatchOptions {
    pub case_sensitive: bool,
    pub require_literal_separator: bool,
    pub require_literal_leading_dot: bool,
}

impl MatchOptions {
    /// The options used by [`GlobPattern::matches`]: case sensitive, nothing else required.
    pub fn new() -> (r: Self)
        ensures
            r.case_sensitive,
            !r.require_literal_separator,
            !r.require_literal_leading_dot,
    {
        MatchOptions {
            case_sensitive: true,
            require_literal_separator: false,
            require_literal_leading_dot: false,
        }
    }
}

/// Error of a malformed glob pattern.
#[derive(Clone, Debug, PartialEq, Eq)]
pub struct GlobPatternError {
    /// The error as `glob` words it.
    pub message: String,
}

/// A compiled glob pattern, together with the text it was compiled from.
///
/// Only [`GlobPattern::new`] builds one, so `compiled` is always the compilation of `source`.
#[derive(Clone, Debug, PartialEq, Eq)]
pub struct GlobPattern {
    source: String,
    compiled: glob::Pattern,
}

impl View for GlobPattern {
    type V = Seq<char>;

    closed spec fn view(&self) -> Seq<char> {
        self.source@
    }
}

/// `glob::Pattern::new`: compiles `s`; succeeds exactly on well-formed patterns.
#[verifier::external_body]
fn compile_glob(s: &str) -> (r: Result<glob::Pattern, glob::PatternError>)
    ensures
        r is Ok <==> glob_compiles(s@),
{
    glob::Pattern::new(s)
}

/// The message of a glob pattern error (`<glob::PatternError as Display>::fmt`).
#[verifier::external_body]
fn glob_error_message(e: &glob::PatternError) -> String {
    e.to_string()
}

/// `glob::Pattern::escape`: surrounds each of `?`, `*`, `[` and `]` with brackets.
pub open spec fn glob_escape(s: Seq<char>) -> Seq<char>
    decreases s.len(),
{
    if s.len() == 0 {
        Seq::empty()
    } else {
        let c = s.last();
        glob_escape(s.drop_last()) + if c == '?' || c == '*' || c == '[' || c == ']' {
            seq!['[', c, ']']
        } else {
            seq![c]
        }
    }
}

/// A character that `glob` may take for a path separator: `/` everywhere, `\\` on Windows.
pub open spec fn maybe_separator(c: char) -> bool {
    c == '/' || c == '\\'
}

/// Whether `a` and `b` have the same length and agree at each position, but where both hold a
/// character that may be a path separator (on Windows `glob` takes `/` and `\\` for one another).
pub open spec fn same_up_to_separators(a: Seq<char>, b: Seq<char>) -> bool {
    &&& a.len() == b.len()
    &&& forall|i: int| 0 <= i < a.len() ==> a[i] == b[i] || (maybe_separator(a[i]) && maybe_separator(b[i]))
}

/// `glob::Pattern::escape`. What is claimed of it: the text is `s` with each of `?`, `*`, `[` and
/// `]` put in brackets; it compiles; matched case sensitively it matches `s` under any options,
/// and what it matches equals `s` but where both hold a separator. Which separators stand for one
/// another depends on the platform `glob` was built for, so no more is said of them.
#[verifier::external_body]
fn escape_glob(s: &str) -> (r: String)
    ensures
        r@ == glob_escape(s@),
        glob_compiles(r@),
        forall|sep: bool, dot: bool| #[trigger] glob_matches(r@, s@, true, sep, dot),
        forall|input: Seq<char>, sep: bool, dot: bool|
            #[trigger] glob_matches(r@, input, true, sep, dot) ==> same_up_to_separators(input, s@),
{
    glob::Pattern::escape(s)
}

impl GlobPattern {
    /// Compiles `pattern`; fails exactly when it is not a well-formed glob pattern.
    pub fn new(pattern: &str) -> (r: Result<GlobPattern, GlobPatternError>)
        ensures
            r is Ok <==> glob_compiles(pattern@),
            r matches Ok(p) ==> p@ == pattern@,
    {
        match compile_glob(pattern) {
            Ok(compiled) => Ok(GlobPattern { source: String::from_str(pattern), compiled }),
            Err(e) => Err(GlobPatternError { message: glob_error_message(&e) }),
        }
    }

    /// The pattern `*` (`glob::Pattern::new("*")`, which a single `*` always passes).
    #[verifier::external_body]
    pub(crate) fn wildcard() -> (r: GlobPattern)
        ensures
            r@ == seq!['*'],
    {
        GlobPattern { source: "*".to_string(), compiled: glob::Pattern::new("*").unwrap() }
    }

    /// The text the pattern was compiled from.
    pub fn as_str(&self) -> (r: &str)
        ensures
            r@ == self@,
    {
        self.source.as_str()
    }

    /// A copy of this pattern.
    pub fn duplicate(&self) -> (r: GlobPattern)
        ensures
            r == *self,
    {
        GlobPattern { source: self.source.clone(), compiled: self.compiled.clone() }
    }

    /// `glob::Pattern::matches_with` on the compiled pattern: whether `input` matches.
    #[verifier::external_body]
    pub(crate) fn matches_with(&self, input: &str, options: MatchOptions) -> (r: bool)
        ensures
            r == glob_matches(
                self@,
                input@,
                options.case_sensitive,
                options.require_literal_separator,
                options.require_literal_leading_dot,
            ),
    {
        self.compiled.matches_with(
            input,
            glob::MatchOptions {
                case_sensitive: options.case_sensitive,
                require_literal_separator: options.require_literal_separator,
                require_literal_leading_dot: options.require_literal_leading_dot,
            },
        )
    }

    /// Whether `input` matches, with the default options of [`MatchOptions::new`].
    pub fn matches(&self, input: &str) -> (r: bool)
        ensures
            r == glob_matches(self@, input@, true, false, false),
    {
        self.matches_with(input, MatchOptions::new())
    }

    /// A pattern that matches `s` literally (`glob::Pattern::escape`): it matches `s`, and what it
    /// matches equals `s` but where both hold a path separator.
    pub fn escape(s: &str) -> (r: String)
        ensures
            r@ == glob_escape(s@),
            glob_compiles(r@),
            forall|sep: bool, dot: bool| #[trigger] glob_matches(r@, s@, true, sep, dot),
            forall|input: Seq<char>, sep: bool, dot: bool|
                #[trigger] glob_matches(r@, input, true, sep, dot) ==> same_up_to_separators(input, s@),
    {
        escape_glob(s)
    }
}

/// `<glob::Pattern as Clone>::clone` (derived): the copy equals the original.
pub assume_specification[ <glob::Pattern as Clone>::clone ](p: &glob::Pattern) -> (r: glob::Pattern)
    ensures
        r == *p,
;

} // verus!
