use obscura_solverr::challenge::{
    has_cf_clearance, has_challenge_markers, is_cloudflare_challenge, CookieInfo,
};

fn cookie(name: &str, value: &str) -> CookieInfo {
    CookieInfo {
        name: name.into(),
        value: value.into(),
        domain: ".example.com".into(),
        path: "/".into(),
        secure: true,
        http_only: true,
        same_site: String::new(),
        expires: None,
    }
}

#[test]
fn detects_interstitial_title() {
    assert!(is_cloudflare_challenge(
        "<html><title>Just a moment...</title></html>"
    ));
}

#[test]
fn cf_clearance_present() {
    assert!(has_cf_clearance(&[CookieInfo {
        name: "cf_clearance".into(),
        value: "abc".into(),
        domain: ".example.com".into(),
        path: "/".into(),
        secure: true,
        http_only: true,
        same_site: String::new(),
        expires: None,
    }]));
}

#[test]
fn cf_clearance_empty_value_does_not_count() {
    assert!(!has_cf_clearance(&[cookie("cf_clearance", "")]));
}

#[test]
fn cf_clearance_needs_exact_name() {
    assert!(!has_cf_clearance(&[cookie("CF_CLEARANCE", "abc"), cookie("other", "x")]));
    assert!(!has_cf_clearance(&[]));
    assert!(has_cf_clearance(&[cookie("a", "b"), cookie("cf_clearance", "z")]));
}

#[test]
fn detects_each_marker_in_any_case() {
    assert!(is_cloudflare_challenge("CHECKING YOUR BROWSER before accessing"));
    assert!(is_cloudflare_challenge("<div id=\"cf-browser-verification\">"));
    assert!(is_cloudflare_challenge(
        "<script src=\"https://Challenges.Cloudflare.com/turnstile/v0/api.js\">"
    ));
    assert!(is_cloudflare_challenge(
        "/cdn-cgi/challenge-platform/h/b window.__CF$cv$params={}"
    ));
}

#[test]
fn challenge_platform_alone_is_not_a_challenge() {
    assert!(!is_cloudflare_challenge("/cdn-cgi/challenge-platform/scripts/jsd/main.js"));
    assert!(!is_cloudflare_challenge("<html><body>Welcome</body></html>"));
    assert!(!is_cloudflare_challenge(""));
}

#[test]
fn markers_are_matched_on_lowercased_text_only() {
    assert!(has_challenge_markers("just a moment"));
    assert!(!has_challenge_markers("Just a moment"));
    assert!(!has_challenge_markers("just a momen"));
}

#[test]
fn clearance_ignores_order_and_splits_over_concat() {
    let a = vec![cookie("x", "1"), cookie("cf_clearance", "ok")];
    let b = vec![cookie("y", "2")];
    let rev: Vec<CookieInfo> = a.iter().rev().map(|c| cookie(&c.name, &c.value)).collect();
    assert_eq!(has_cf_clearance(&rev), has_cf_clearance(&a));
    let mut ab: Vec<CookieInfo> = a.iter().map(|c| cookie(&c.name, &c.value)).collect();
    ab.extend(b.iter().map(|c| cookie(&c.name, &c.value)));
    assert_eq!(has_cf_clearance(&ab), has_cf_clearance(&a) || has_cf_clearance(&b));
    assert!(!has_cf_clearance(&b));
}
