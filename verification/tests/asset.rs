use tauri_core::asset::{asset_candidates, find_asset, is_html, percent_decode, boundary_of, closing_boundary, content_range, part_header, plan_range_request, plan_ranges, random_boundary, unsatisfied_content_range, RangePlan, MAX_LEN};

#[test]
fn a_single_range() {
    assert_eq!(plan_range_request("bytes=0-499", 1000), RangePlan::Single { start: 0, end: 499 });
    assert_eq!(plan_range_request("bytes=500-", 1000), RangePlan::Single { start: 500, end: 999 });
    assert_eq!(plan_range_request("bytes=-100", 1000), RangePlan::Single { start: 900, end: 999 });
    // the end is cut to the file
    assert_eq!(plan_range_request("bytes=900-5000", 1000), RangePlan::Single { start: 900, end: 999 });
}

#[test]
fn a_range_is_cut_to_the_largest_part() {
    let len = 10 * MAX_LEN;
    assert_eq!(plan_range_request("bytes=0-", len), RangePlan::Single { start: 0, end: MAX_LEN - 1 });
}

#[test]
fn unsatisfiable_ranges() {
    assert_eq!(plan_range_request("bytes=1000-", 1000), RangePlan::NotSatisfiable);
    assert_eq!(plan_range_request("lines=1-2", 1000), RangePlan::NotSatisfiable);
    assert_eq!(plan_range_request("bytes=5-1", 1000), RangePlan::NotSatisfiable);
    // an empty file has no byte to send
    assert_eq!(plan_range_request("bytes=-5", 0), RangePlan::NotSatisfiable);
}

#[test]
fn several_ranges_make_a_multipart_answer() {
    assert_eq!(plan_range_request("bytes=0-9, 20-29", 100), RangePlan::Multi(vec![(0, 9), (20, 29)]));
    assert_eq!(plan_ranges(Some(&vec![(0, 10), (200, 5), (50, 0)]), 100), RangePlan::Multi(vec![(0, 9)]));
    assert_eq!(plan_ranges(Some(&vec![]), 100), RangePlan::Multi(vec![]));
    assert_eq!(plan_ranges(None, 100), RangePlan::NotSatisfiable);
}

#[test]
fn texts_of_the_answer() {
    assert_eq!(content_range(0, 9, 100), "bytes 0-9/100");
    assert_eq!(unsatisfied_content_range(100), "bytes */100");
    assert_eq!(part_header("b0", "text/plain", 0, 9, 100), "\r\n--b0\r\ncontent-type: text/plain\r\ncontent-range: bytes 0-9/100\r\n\r\n");
    assert_eq!(closing_boundary("b0"), "\r\n--b0\r\n");
}

#[test]
fn boundaries_are_hexadecimal() {
    assert_eq!(boundary_of(&[0, 9, 10, 15, 16, 255]), "09af10ff");
    let b = random_boundary().unwrap();
    assert!(b.len() >= 30 && b.len() <= 60);
    assert!(b.chars().all(|c| c.is_ascii_hexdigit() && !c.is_ascii_uppercase()));
}

#[test]
fn asset_keys_are_tried_in_order() {
    assert_eq!(asset_candidates("/about"), vec!["about", "about.html", "about/index.html", "index.html"]);
    assert_eq!(asset_candidates("/docs/"), vec!["docs", "docs.html", "docs/index.html", "index.html"]);
    assert_eq!(asset_candidates("/"), vec!["index.html", "index.html.html", "index.html/index.html", "index.html"]);
    assert_eq!(asset_candidates("/a%20b"), vec!["a b", "a b.html", "a b/index.html", "index.html"]);
}

#[test]
fn percent_escapes_are_decoded() {
    assert_eq!(percent_decode("a%20b%2Fc"), "a b/c");
    assert_eq!(percent_decode("plain"), "plain");
    assert!(is_html("index.html"));
    assert!(!is_html("app.js"));
}

#[test]
fn assets_fall_back_in_order() {
    let stored = |keys: &'static [&'static str]| {
        move |k: &str| if keys.contains(&k) { Some(k.as_bytes().to_vec()) } else { None }
    };
    let lookup = stored(&["about.html", "index.html", "docs/index.html"]);
    assert_eq!(find_asset("/about", &lookup), Some(("about.html".to_string(), b"about.html".to_vec())));
    assert_eq!(find_asset("/docs/", &lookup), Some(("docs/index.html".to_string(), b"docs/index.html".to_vec())));
    assert_eq!(find_asset("/missing", &lookup), Some(("index.html".to_string(), b"index.html".to_vec())));
    let lookup = stored(&["app.js"]);
    assert_eq!(find_asset("/app.js", &lookup), Some(("app.js".to_string(), b"app.js".to_vec())));
    assert_eq!(find_asset("/other.js", &lookup), None);
}
