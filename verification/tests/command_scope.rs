use std::sync::Arc;

use tauri_core::command_scope::{CommandScope, ScopeObjectMatch};

#[derive(Debug)]
enum Scope {
    Prefix(String),
}

impl ScopeObjectMatch for Scope {
    type Input = str;

    fn matches(&self, input: &str) -> bool {
        match self {
            Scope::Prefix(p) => input.starts_with(p.as_str()),
        }
    }
}

fn scope(allow: &[&str], deny: &[&str]) -> CommandScope<Scope> {
    let entries = |v: &[&str]| v.iter().map(|p| Arc::new(Scope::Prefix(p.to_string()))).collect::<Vec<_>>();
    CommandScope::new(entries(allow), entries(deny))
}

#[test]
fn no_allow_scope_allows_what_is_not_denied() {
    let s = scope(&[], &["/secret"]);
    assert!(s.matches("/home/file"));
    assert!(!s.matches("/secret/file"));
}

#[test]
fn deny_wins_over_allow() {
    let s = scope(&["/home"], &["/home/private"]);
    assert!(s.matches("/home/file"));
    assert!(!s.matches("/home/private/file"));
    assert!(!s.matches("/etc/passwd"));
    assert_eq!(s.allows().len(), 1);
    assert_eq!(s.denies().len(), 1);
}
