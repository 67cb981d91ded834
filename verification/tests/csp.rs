use tauri_core::csp::{select_csp, match_positions, replace_csp_nonce, replace_with_callback, set_csp, splice, CspMap, SCRIPT_NONCE_TOKEN, STYLE_NONCE_TOKEN};

#[test]
fn string_replace_with_callback() {
    for (src, pattern, result) in [(
        "tauri is awesome, tauri is amazing",
        "tauri",
        "1 is awesome, 2 is amazing",
    )] {
        assert_eq!(replace_with_callback(src, pattern, |i: usize| (i + 1).to_string()), result);
    }
}

#[test]
fn occurrences_do_not_overlap() {
    assert_eq!(match_positions("aaaa", "aa"), vec![0, 2]);
    assert_eq!(match_positions("abc", "d"), Vec::<usize>::new());
    assert_eq!(splice("x-x-x", "x", &vec!["1".to_string(), "2".to_string(), "3".to_string()]), "1-2-3");
}

#[test]
fn replacing_without_occurrences_keeps_the_text() {
    assert_eq!(replace_with_callback("nothing here", "tauri", |_i: usize| "X".to_string()), "nothing here");
}

#[test]
fn nonces_are_added_to_the_policy() {
    let mut csp = CspMap::new();
    let mut html = format!("<script nonce=\"{SCRIPT_NONCE_TOKEN}\"></script><script nonce=\"{SCRIPT_NONCE_TOKEN}\"></script>");
    replace_csp_nonce(&mut html, SCRIPT_NONCE_TOKEN, &mut csp, "script-src", &vec!["'sha256-abc'".to_string()]);
    assert!(!html.contains(SCRIPT_NONCE_TOKEN));
    let sources = csp.sources("script-src");
    assert_eq!(sources[0], "'self'");
    assert_eq!(sources.len(), 4);
    assert!(sources[1].starts_with("'nonce-"));
    assert!(sources[2].starts_with("'nonce-"));
    assert_eq!(sources[3], "'sha256-abc'");
    // each nonce in the policy is one that stands in the asset
    for s in &sources[1..3] {
        let n = &s["'nonce-".len()..s.len() - 1];
        assert!(html.contains(&format!("nonce=\"{n}\"")));
    }
}

#[test]
fn nothing_to_allow_leaves_the_policy_alone() {
    let mut csp = CspMap::new();
    let mut html = "<p>plain</p>".to_string();
    replace_csp_nonce(&mut html, SCRIPT_NONCE_TOKEN, &mut csp, "script-src", &Vec::new());
    assert_eq!(html, "<p>plain</p>");
    assert!(csp.sources("script-src").is_empty());
}

#[test]
fn set_csp_touches_only_what_may_change() {
    let mut csp = CspMap::new();
    let before = format!("<style nonce=\"{STYLE_NONCE_TOKEN}\"></style><script nonce=\"{SCRIPT_NONCE_TOKEN}\"></script>");
    let mut html = before.clone();
    set_csp(&mut html, &mut csp, &Vec::new(), &Vec::new(), false, false);
    assert_eq!(html, before);
    set_csp(&mut html, &mut csp, &Vec::new(), &Vec::new(), false, true);
    assert!(html.contains(SCRIPT_NONCE_TOKEN));
    assert!(!html.contains(STYLE_NONCE_TOKEN));
    assert!(csp.sources("script-src").is_empty());
    assert_eq!(csp.sources("style-src").len(), 2);
}

#[test]
fn the_development_policy_wins_in_development() {
    assert_eq!(select_csp(false, Some("prod"), Some("dev")), Some("prod"));
    assert_eq!(select_csp(true, Some("prod"), Some("dev")), Some("dev"));
    assert_eq!(select_csp(true, Some("prod"), None), Some("prod"));
    assert_eq!(select_csp::<&str>(true, None, None), None);
}
