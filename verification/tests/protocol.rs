use tauri_core::protocol::{encode_uri_component, origin};

#[test]
fn encode_uri_component_matches_js() {
    // encodeURIComponent("aZ09-_.!~*'() /\\?#&%+é")
    let input = "aZ09-_.!~*'() /\\?#&%+é";
    let expected = "aZ09-_.!~*'()%20%2F%5C%3F%23%26%25%2B%C3%A9";
    assert_eq!(encode_uri_component(input), expected);
}

#[test]
fn empty_component_stays_empty() {
    assert_eq!(encode_uri_component(""), "");
    assert_eq!(encode_uri_component("\n"), "%0A");
}

#[test]
fn protocol_origins() {
    assert_eq!(origin("tauri", false, false), "tauri://localhost");
    assert_eq!(origin("tauri", true, false), "tauri://localhost");
    assert_eq!(origin("tauri", false, true), "http://tauri.localhost");
    assert_eq!(origin("asset", true, true), "https://asset.localhost");
}
