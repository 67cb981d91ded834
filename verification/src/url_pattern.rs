//! Remote URL patterns (the `context: remote` of a capability), compiled and tested by the
//! `urlpattern` crate.

use vstd::prelude::*;

use crate::text::str_eq;

verus! {

/// The components of a URL pattern constructor string, each unset when the string did not give it.
#[derive(Clone, Debug, PartialEq, Eq)]
pub struct UrlPatternParts {
    pub protocol: Option<String>,
    pub username: Option<String>,
    pub password: Option<String>,
    pub hostname: Option<String>,
    pub port: Option<String>,
    pub pathname: Option<String>,
    pub search: Option<String>,
    pub hash: Option<String>,
}

/// Whether `url` matches the remote URL pattern written as `pattern`: the pattern's
/// constructor string with unset or empty search and hash, and an unset, empty or `/` pathname,
/// taken as `*`; an invalid URL matches nothing.
pub uninterp spec fn remote_url_matches(pattern: Seq<char>, url: Seq<char>) -> bool;

/// The model of [`UrlPatternParts`]: the text of each component, if set.
pub struct PartsModel {
    pub protocol: Option<Seq<char>>,
    pub username: Option<Seq<char>>,
    pub password: Option<Seq<char>>,
    pub hostname: Option<Seq<char>>,
    pub port: Option<Seq<char>>,
    pub pathname: Option<Seq<char>>,
    pub search: Option<Seq<char>>,
    pub hash: Option<Seq<char>>,
}

/// The text of a component, if set.
pub open spec fn component_text(c: Option<String>) -> Option<Seq<char>> {
    match c {
        Some(s) => Some(s@),
        None => None,
    }
}

impl View for UrlPatternParts {
    type V = PartsModel;

    open spec fn view(&self) -> PartsModel {
        PartsModel {
            protocol: component_text(self.protocol),
            username: component_text(self.username),
            password: component_text(self.password),
            hostname: component_text(self.hostname),
            port: component_text(self.port),
            pathname: component_text(self.pathname),
            search: component_text(self.search),
            hash: component_text(self.hash),
        }
    }
}

/// The model of a parse result: the components, or the error's text.
pub open spec fn parts_result(r: Result<UrlPatternParts, String>) -> Result<PartsModel, Seq<char>> {
    match r {
        Ok(p) => Ok(p@),
        Err(e) => Err(e@),
    }
}

/// The model of a compile result: success, or the error's text.
pub open spec fn unit_result(r: Result<(), String>) -> Result<(), Seq<char>> {
    match r {
        Ok(()) => Ok(()),
        Err(e) => Err(e@),
    }
}

/// `urlpattern::UrlPatternInit::parse_constructor_string` (with no base URL): the components the
/// constructor string gives, or the text of the error.
pub uninterp spec fn constructor_parts(s: Seq<char>) -> Result<PartsModel, Seq<char>>;

/// `urlpattern::UrlPatternInit::parse_constructor_string` (with no base URL), its components moved
/// into [`UrlPatternParts`]; the error is rendered as text.
#[verifier::external_body]
fn parse_constructor_string(s: &str) -> (r: Result<UrlPatternParts, String>)
    ensures
        parts_result(r) == constructor_parts(s@),
{
    match urlpattern::UrlPatternInit::parse_constructor_string::<regex::Regex>(s, None) {
        Ok(init) => Ok(UrlPatternParts {
            protocol: init.protocol,
            username: init.username,
            password: init.password,
            hostname: init.hostname,
            port: init.port,
            pathname: init.pathname,
            search: init.search,
            hash: init.hash,
        }),
        Err(e) => Err(e.to_string()),
    }
}

#[verifier::external_type_specification]
#[verifier::external_body]
pub struct ExUrlPatternInit(urlpattern::UrlPatternInit);

/// Moves the components into a `urlpattern::UrlPatternInit` without a base URL.
#[verifier::external_body]
fn init_of(p: &UrlPatternParts) -> urlpattern::UrlPatternInit {
    urlpattern::UrlPatternInit {
        protocol: p.protocol.clone(),
        username: p.username.clone(),
        password: p.password.clone(),
        hostname: p.hostname.clone(),
        port: p.port.clone(),
        pathname: p.pathname.clone(),
        search: p.search.clone(),
        hash: p.hash.clone(),
        base_url: None,
    }
}

/// `urlpattern::UrlPattern::parse` with default options, of the components without a base URL:
/// success, or the text of the error.
pub uninterp spec fn parts_compile(p: PartsModel) -> Result<(), Seq<char>>;

/// `urlpattern::UrlPattern::parse` with default options; the error is rendered as text.
#[verifier::external_body]
fn compile_parts(p: &UrlPatternParts) -> (r: Result<(), String>)
    ensures
        unit_result(r) == parts_compile(p@),
{
    match urlpattern::UrlPattern::<regex::Regex>::parse(init_of(p), Default::default()) {
        Ok(_) => Ok(()),
        Err(e) => Err(e.to_string()),
    }
}

/// Whether a component is unset or empty.
pub open spec fn unset_or_empty_text(c: Option<Seq<char>>) -> bool {
    c is None || c.unwrap().len() == 0
}

/// The components with the defaults of a remote pattern: `*` for an unset or empty search and
/// hash, and for an unset, empty or `/` pathname.
pub open spec fn with_defaults(p: PartsModel) -> PartsModel {
    PartsModel {
        protocol: p.protocol,
        username: p.username,
        password: p.password,
        hostname: p.hostname,
        port: p.port,
        pathname: if unset_or_empty_text(p.pathname) || p.pathname == Some("/"@) { Some("*"@) } else { p.pathname },
        search: if unset_or_empty_text(p.search) { Some("*"@) } else { p.search },
        hash: if unset_or_empty_text(p.hash) { Some("*"@) } else { p.hash },
    }
}

/// Whether the component is unset, or set to the empty text.
fn unset_or_empty(c: &Option<String>) -> (r: bool)
    ensures
        r == (c is None || c.unwrap()@.len() == 0),
{
    match c {
        None => true,
        Some(s) => s.as_str().is_empty(),
    }
}

/// Error of a malformed remote URL pattern.
#[derive(Clone, Debug, PartialEq, Eq)]
pub struct UrlPatternError {
    pub message: String,
}

/// A remote URL pattern such as `https://*.tauri.app`.
///
/// Only [`RemoteUrlPattern::parse`] builds one, so `parts` always holds the components of
/// `source` with the defaults applied.
#[derive(Clone, Debug, PartialEq, Eq)]
pub struct RemoteUrlPattern {
    source: String,
    parts: UrlPatternParts,
}

impl View for RemoteUrlPattern {
    type V = Seq<char>;

    closed spec fn view(&self) -> Seq<char> {
        self.source@
    }
}

impl RemoteUrlPattern {
    /// Parses a remote URL pattern. The search and hash default to `*` when unset or empty, and so
    /// does the pathname when unset, empty or `/`.
    pub fn parse(s: &str) -> (r: Result<RemoteUrlPattern, UrlPatternError>)
        ensures
            match constructor_parts(s@) {
                Err(m) => r matches Err(e) && e.message@ == m,
                Ok(p) => match parts_compile(with_defaults(p)) {
                    Ok(()) => r matches Ok(x) && x@ == s@,
                    Err(m) => r matches Err(e) && e.message@ == m,
                },
            },
    {
        let mut parts = match parse_constructor_string(s) {
            Ok(parts) => parts,
            Err(message) => return Err(UrlPatternError { message }),
        };
        if unset_or_empty(&parts.search) {
            parts.search = Some(String::from_str("*"));
        }
        if unset_or_empty(&parts.hash) {
            parts.hash = Some(String::from_str("*"));
        }
        let root_path = match &parts.pathname {
            None => true,
            Some(p) => unset_or_empty(&parts.pathname) || str_eq(p.as_str(), "/"),
        };
        if root_path {
            parts.pathname = Some(String::from_str("*"));
        }
        proof {
            reveal_strlit("*");
            reveal_strlit("/");
        }
        match compile_parts(&parts) {
            Ok(()) => Ok(RemoteUrlPattern { source: String::from_str(s), parts }),
            Err(message) => Err(UrlPatternError { message }),
        }
    }

    /// A copy of this pattern.
    pub fn duplicate(&self) -> (r: RemoteUrlPattern)
        ensures
            r@ == self@,
    {
        RemoteUrlPattern { source: self.source.clone(), parts: self.parts.clone() }
    }

    /// The pattern as it was written.
    pub fn as_str(&self) -> (r: &str)
        ensures
            r@ == self@,
    {
        self.source.as_str()
    }

    /// `urlpattern::UrlPattern::test` of the compiled pattern against `url` (parsed with
    /// `url::Url::parse`); an unparsable URL, or an error of the test, counts as no match.
    #[verifier::external_body]
    pub(crate) fn test(&self, url: &str) -> (r: bool)
        ensures
            r == remote_url_matches(self@, url@),
    {
        let pattern = urlpattern::UrlPattern::<regex::Regex>::parse(init_of(&self.parts), Default::default());
        match (pattern, url::Url::parse(url)) {
            (Ok(p), Ok(u)) => p.test(urlpattern::UrlPatternMatchInput::Url(u)).unwrap_or_default(),
            _ => false,
        }
    }
}

} // verus!
