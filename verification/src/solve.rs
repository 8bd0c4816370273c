//! The decisions of a page solve: when to stop waiting for a Cloudflare
//! challenge, and what the solve reports.
use vstd::prelude::*;

use crate::api::{FlareCookie, Solution};
use crate::challenge::{
    has_cf_clearance, has_clearance, is_challenge_page, is_cloudflare_challenge, CookieInfo,
};
use crate::session::BrowserSpec;
use crate::text::{append_str, copy_opt, copy_str, decimal, opt_view, push_decimal};

verus! {

/// What a page request without a session is solved with.
pub struct SolveOptions {
    pub url: String,
    pub max_timeout_ms: u64,
    pub proxy: Option<String>,
    pub stealth: bool,
    pub user_agent: Option<String>,
}

/// A solved page and the message that goes with it.
pub struct SolveResult {
    pub solution: Solution,
    pub message: String,
}

/// What the page's document offered when its HTML was read.
pub enum DomSnapshot {
    /// The page has no document.
    Missing,
    /// The outer HTML of the document's `html` element.
    WithRoot(String),
    /// The inner HTML of a document without an `html` element.
    WithoutRoot(String),
}

/// What the waiting loop does after looking at the page once.
pub enum PollStep {
    /// Stop waiting: the page is through.
    Finish,
    /// Give up with this error message.
    Fail(String),
    /// Look again after a pause.
    Wait,
}

/// The page HTML reported for `dom`.
pub open spec fn page_html_of(dom: DomSnapshot) -> Seq<char> {
    match dom {
        DomSnapshot::Missing => Seq::empty(),
        DomSnapshot::WithRoot(outer) => "<!DOCTYPE html>\n"@ + outer@,
        DomSnapshot::WithoutRoot(inner) => inner@,
    }
}

/// The error when navigation does not finish within `ms` milliseconds.
pub open spec fn navigation_timeout_text(ms: u64) -> Seq<char> {
    "Navigation timed out after "@ + decimal(ms as nat) + "ms"@
}

/// The error when navigation to `url` fails.
pub open spec fn navigation_failed_text(url: Seq<char>) -> Seq<char> {
    "Failed to navigate to "@ + url
}

/// The error when the challenge is still up after `ms` milliseconds.
pub open spec fn challenge_timeout_text(ms: u64) -> Seq<char> {
    "Cloudflare challenge not cleared within "@ + decimal(ms as nat) + "ms"@
}

/// The message of a finished solve.
pub open spec fn solve_message_text(saw_challenge: bool, cookies: Seq<CookieInfo>) -> Seq<char> {
    if saw_challenge && has_clearance(cookies) {
        "Challenge solved!"@
    } else {
        "Challenge not detected!"@
    }
}

/// `f` reports the cookie `c`.
pub open spec fn reports_cookie(f: FlareCookie, c: CookieInfo) -> bool {
    &&& f.name@ == c.name@
    &&& f.value@ == c.value@
    &&& f.domain matches Some(d) && d@ == c.domain@
    &&& f.path matches Some(p) && p@ == c.path@
}

/// `out` reports the cookies `cookies`, one for one and in order.
pub open spec fn reports_cookies(out: Seq<FlareCookie>, cookies: Seq<CookieInfo>) -> bool {
    &&& out.len() == cookies.len()
    &&& forall|i: int| 0 <= i < out.len() ==> reports_cookie(#[trigger] out[i], cookies[i])
}

/// What the browser of a solve without a session is built from.
pub fn ephemeral_browser(opts: &SolveOptions) -> (b: BrowserSpec)
    ensures
        b.context_name@ == "solverr-ephemeral"@,
        b.page_name@ == "solverr-ephemeral-page"@,
        opt_view(b.proxy) == opt_view(opts.proxy),
        b.stealth == opts.stealth,
        opt_view(b.user_agent) == opt_view(opts.user_agent),
{
    BrowserSpec {
        context_name: copy_str("solverr-ephemeral"),
        page_name: copy_str("solverr-ephemeral-page"),
        proxy: copy_opt(&opts.proxy),
        stealth: opts.stealth,
        user_agent: copy_opt(&opts.user_agent),
    }
}

/// The page HTML: the `html` element behind a doctype line, or else the
/// document's inner HTML, or nothing without a document.
pub fn page_html(dom: DomSnapshot) -> (html: String)
    ensures
        html@ == page_html_of(dom),
{
    match dom {
        DomSnapshot::Missing => String::new(),
        DomSnapshot::WithRoot(outer) => {
            let mut s = copy_str("<!DOCTYPE html>\n");
            append_str(&mut s, outer.as_str());
            s
        },
        DomSnapshot::WithoutRoot(inner) => inner,
    }
}

/// The cookies in the shape the API reports them.
pub fn flare_cookies(cookies: &[CookieInfo]) -> (out: Vec<FlareCookie>)
    ensures
        reports_cookies(out@, cookies@),
{
    let mut out: Vec<FlareCookie> = Vec::new();
    let mut i: usize = 0;
    while i < cookies.len()
        invariant
            i <= cookies.len(),
            out@.len() == i,
            forall|j: int| 0 <= j < i ==> reports_cookie(#[trigger] out@[j], cookies@[j]),
        decreases cookies.len() - i,
    {
        let c = &cookies[i];
        out.push(
            FlareCookie {
                name: copy_str(c.name.as_str()),
                value: copy_str(c.value.as_str()),
                domain: Some(copy_str(c.domain.as_str())),
                path: Some(copy_str(c.path.as_str())),
            },
        );
        i = i + 1;
    }
    out
}

/// The error when navigation does not finish within `ms` milliseconds.
pub fn navigation_timeout_message(ms: u64) -> (m: String)
    ensures
        m@ == navigation_timeout_text(ms),
{
    let mut m = copy_str("Navigation timed out after ");
    push_decimal(&mut m, ms);
    append_str(&mut m, "ms");
    m
}

/// The error when navigation to `url` fails.
pub fn navigation_failed_message(url: &str) -> (m: String)
    ensures
        m@ == navigation_failed_text(url@),
{
    let mut m = copy_str("Failed to navigate to ");
    append_str(&mut m, url);
    m
}

/// The error when the challenge is still up after `ms` milliseconds.
pub fn challenge_timeout_message(ms: u64) -> (m: String)
    ensures
        m@ == challenge_timeout_text(ms),
{
    let mut m = copy_str("Cloudflare challenge not cleared within ");
    push_decimal(&mut m, ms);
    append_str(&mut m, "ms");
    m
}

/// One look at the page while waiting out a challenge. Given whether a
/// challenge was seen so far, the page HTML, the cookies, and whether the
/// deadline has passed, returns whether a challenge has now been seen and
/// what to do next: finish once a clearance cookie is there or the page is
/// a non-empty page without a challenge; otherwise fail past the deadline,
/// or wait.
pub fn poll_challenge(
    saw_challenge: bool,
    html: &str,
    cookies: &[CookieInfo],
    deadline_passed: bool,
    max_timeout_ms: u64,
) -> (r: (bool, PollStep))
    ensures
        r.0 == (saw_challenge || is_challenge_page(html@)),
        has_clearance(cookies@) ==> r.1 is Finish,
        !has_clearance(cookies@) && !is_challenge_page(html@) && html@.len() > 0 ==> r.1 is Finish,
        !has_clearance(cookies@) && (is_challenge_page(html@) || html@.len() == 0)
            && deadline_passed ==> (r.1 matches PollStep::Fail(m) && m@ == challenge_timeout_text(
            max_timeout_ms,
        )),
        !has_clearance(cookies@) && (is_challenge_page(html@) || html@.len() == 0)
            && !deadline_passed ==> r.1 is Wait,
{
    let challenged = is_cloudflare_challenge(html);
    let saw = saw_challenge || challenged;
    if has_cf_clearance(cookies) {
        return (saw, PollStep::Finish);
    }
    if !challenged && !html.is_empty() {
        return (saw, PollStep::Finish);
    }
    if deadline_passed {
        return (saw, PollStep::Fail(challenge_timeout_message(max_timeout_ms)));
    }
    (saw, PollStep::Wait)
}

/// The message of a finished solve: solved when a challenge was seen and a
/// clearance cookie is there, not detected otherwise.
pub fn solve_message(saw_challenge: bool, cookies: &[CookieInfo]) -> (m: String)
    ensures
        m@ == solve_message_text(saw_challenge, cookies@),
{
    if saw_challenge && has_cf_clearance(cookies) {
        copy_str("Challenge solved!")
    } else {
        copy_str("Challenge not detected!")
    }
}

/// The result of a finished solve, from the page as it stands at the end.
pub fn finish_solve(
    saw_challenge: bool,
    final_url: String,
    html: String,
    user_agent: String,
    cookies: &[CookieInfo],
) -> (r: SolveResult)
    ensures
        r.message@ == solve_message_text(saw_challenge, cookies@),
        r.solution.url == final_url,
        r.solution.status == 200,
        r.solution.response == html,
        r.solution.user_agent == user_agent,
        reports_cookies(r.solution.cookies@, cookies@),
{
    let message = solve_message(saw_challenge, cookies);
    SolveResult {
        message,
        solution: Solution {
            url: final_url,
            status: 200,
            response: html,
            user_agent,
            cookies: flare_cookies(cookies),
        },
    }
}

} // verus!
