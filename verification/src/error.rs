//! The errors of this crate.

use vstd::prelude::*;

use crate::text::concat;

verus! {

/// `format!("{:?}", s)`: the text quoted and escaped as `<str as Debug>` does.
pub uninterp spec fn debug_quoted(s: Seq<char>) -> Seq<char>;

/// `<str as Debug>::fmt` into a `String`.
#[verifier::external_body]
fn debug_string(s: &str) -> (r: String)
    ensures
        r@ == debug_quoted(s@),
{
    format!("{:?}", s)
}

/// The errors of this crate.
#[derive(Clone, Debug, PartialEq, Eq)]
pub enum Error {
    /// An event name holds a character other than alphanumerics, `-`, `/`, `:` and `_`.
    IllegalEventName(String),
    /// No resource has the given id (or it has another type).
    BadResourceId(u32),
    /// The path resolver has no base directory.
    UnknownPath,
    /// The path has no final component.
    NoBasename,
    /// The path has no parent.
    NoParent,
    /// The path has no extension.
    NoExtension,
    /// An image could not be read from the given input.
    InvalidImage(String),
    /// The operating system gave no random bytes.
    Random(String),
    /// A JSON text could not be read.
    Json(String),
    /// A glob pattern is malformed.
    GlobPattern(String),
}

/// The message of an illegal event name error.
pub open spec fn illegal_event_name_message(name: Seq<char>) -> Seq<char> {
    "only alphanumeric, '-', '/', ':', '_' permitted for event names: "@ + debug_quoted(name)
}

impl Error {
    /// The error message.
    pub fn to_string(&self) -> (r: String)
        ensures
            self matches Error::IllegalEventName(n) ==> r@ == illegal_event_name_message(n@),
    {
        match self {
            Error::IllegalEventName(name) => {
                let q = debug_string(name.as_str());
                concat("only alphanumeric, '-', '/', ':', '_' permitted for event names: ", q.as_str())
            },
            Error::BadResourceId(_) => String::from_str("resource id is invalid"),
            Error::UnknownPath => String::from_str("unknown path"),
            Error::NoBasename => String::from_str("could not get basename"),
            Error::NoParent => String::from_str("path does not have a parent"),
            Error::NoExtension => String::from_str("path does not have an extension"),
            Error::InvalidImage(m) => m.clone(),
            Error::Random(m) => m.clone(),
            Error::Json(m) => m.clone(),
            Error::GlobPattern(m) => m.clone(),
        }
    }
}

} // verus!
