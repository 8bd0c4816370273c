use obscura_solverr::challenge::CookieInfo;
use obscura_solverr::solve::{
    challenge_timeout_message, ephemeral_browser, finish_solve, flare_cookies, navigation_failed_message,
    navigation_timeout_message, page_html, poll_challenge, solve_message, DomSnapshot, PollStep,
    SolveOptions,
};

fn cookie(name: &str, value: &str, domain: &str) -> CookieInfo {
    CookieInfo {
        name: name.into(),
        value: value.into(),
        domain: domain.into(),
        path: "/".into(),
        secure: true,
        http_only: true,
        same_site: String::new(),
        expires: None,
    }
}

#[test]
fn maps_cookies_for_api() {
    let out = flare_cookies(&[CookieInfo {
        name: "cf_clearance".into(),
        value: "x".into(),
        domain: ".nowsecure.nl".into(),
        path: "/".into(),
        secure: true,
        http_only: true,
        same_site: String::new(),
        expires: None,
    }]);
    assert_eq!(out[0].name, "cf_clearance");
}

#[test]
fn maps_every_field_in_order() {
    let out = flare_cookies(&[cookie("a", "1", ".x.org"), cookie("b", "2", "y.org")]);
    assert_eq!(out.len(), 2);
    assert_eq!(out[0].value, "1");
    assert_eq!(out[0].domain.as_deref(), Some(".x.org"));
    assert_eq!(out[0].path.as_deref(), Some("/"));
    assert_eq!(out[1].name, "b");
    assert_eq!(out[1].domain.as_deref(), Some("y.org"));
}

#[test]
fn page_html_prefixes_doctype() {
    assert_eq!(
        page_html(DomSnapshot::WithRoot("<html><body>x</body></html>".to_string())),
        "<!DOCTYPE html>\n<html><body>x</body></html>"
    );
    assert_eq!(page_html(DomSnapshot::WithoutRoot("<p>y</p>".to_string())), "<p>y</p>");
    assert_eq!(page_html(DomSnapshot::Missing), "");
}

#[test]
fn error_messages() {
    assert_eq!(navigation_timeout_message(120000), "Navigation timed out after 120000ms");
    assert_eq!(navigation_failed_message("https://a.b/"), "Failed to navigate to https://a.b/");
    assert_eq!(
        challenge_timeout_message(1000),
        "Cloudflare challenge not cleared within 1000ms"
    );
}

#[test]
fn poll_finishes_on_clearance_even_past_deadline() {
    let (saw, step) = poll_challenge(
        false,
        "<title>Just a moment...</title>",
        &[cookie("cf_clearance", "v", ".a")],
        true,
        5000,
    );
    assert!(saw);
    assert!(matches!(step, PollStep::Finish));
}

#[test]
fn poll_finishes_on_plain_page() {
    let (saw, step) = poll_challenge(false, "<html>ok</html>", &[], false, 5000);
    assert!(!saw);
    assert!(matches!(step, PollStep::Finish));
}

#[test]
fn poll_waits_then_fails_at_deadline() {
    let (saw, step) = poll_challenge(false, "Just a moment", &[], false, 5000);
    assert!(saw);
    assert!(matches!(step, PollStep::Wait));
    let (_, step) = poll_challenge(true, "", &[], false, 5000);
    assert!(matches!(step, PollStep::Wait));
    let (saw, step) = poll_challenge(true, "", &[], true, 5000);
    assert!(saw);
    match step {
        PollStep::Fail(m) => assert_eq!(m, "Cloudflare challenge not cleared within 5000ms"),
        _ => panic!("expected failure"),
    }
}

#[test]
fn message_depends_on_challenge_and_clearance() {
    let ok = [cookie("cf_clearance", "v", ".a")];
    assert_eq!(solve_message(true, &ok), "Challenge solved!");
    assert_eq!(solve_message(false, &ok), "Challenge not detected!");
    assert_eq!(solve_message(true, &[]), "Challenge not detected!");
}

#[test]
fn finished_solve_reports_page() {
    let r = finish_solve(
        true,
        "https://a/".to_string(),
        "<html/>".to_string(),
        "UA".to_string(),
        &[cookie("cf_clearance", "v", ".a")],
    );
    assert_eq!(r.message, "Challenge solved!");
    assert_eq!(r.solution.status, 200);
    assert_eq!(r.solution.url, "https://a/");
    assert_eq!(r.solution.response, "<html/>");
    assert_eq!(r.solution.user_agent, "UA");
    assert_eq!(r.solution.cookies.len(), 1);
}

#[test]
fn cookie_report_splits_over_concat() {
    let a = vec![cookie("a", "1", ".x"), cookie("b", "2", ".y")];
    let b = vec![cookie("c", "3", ".z")];
    let mut ab = flare_cookies(&a);
    ab.extend(flare_cookies(&b));
    let all = flare_cookies(&[
        cookie("a", "1", ".x"),
        cookie("b", "2", ".y"),
        cookie("c", "3", ".z"),
    ]);
    assert_eq!(all.len(), ab.len());
    for (x, y) in all.iter().zip(ab.iter()) {
        assert_eq!(x.name, y.name);
        assert_eq!(x.value, y.value);
        assert_eq!(x.domain, y.domain);
        assert_eq!(x.path, y.path);
    }
}

#[test]
fn ephemeral_browser_names_and_settings() {
    let b = ephemeral_browser(&SolveOptions {
        url: "https://e/".to_string(),
        max_timeout_ms: 5,
        proxy: None,
        stealth: true,
        user_agent: Some("UA".to_string()),
    });
    assert_eq!(b.context_name, "solverr-ephemeral");
    assert_eq!(b.page_name, "solverr-ephemeral-page");
    assert!(b.proxy.is_none());
    assert!(b.stealth);
    assert_eq!(b.user_agent.as_deref(), Some("UA"));
}
