//! Recognising a Cloudflare interstitial page and its clearance cookie.
use vstd::prelude::*;

use vstd::utf8::is_ascii_chars;

use crate::text::{
    ascii_lowercase, chars_of, contains_chars, seq_contains, str_eq, to_lowercase, unicode_lowercase,
};

verus! {

/// A cookie as the browser's cookie jar reports it.
pub struct CookieInfo {
    pub name: String,
    pub value: String,
    pub domain: String,
    pub path: String,
    pub secure: bool,
    pub http_only: bool,
    pub same_site: String,
    /// Expiry as seconds since the Unix epoch; `None` for a session cookie.
    pub expires: Option<i64>,
}

/// The markers of an active Cloudflare interstitial, looked for in the
/// lowercased page text `lower`.
pub open spec fn challenge_markers(lower: Seq<char>) -> bool {
    ||| seq_contains(lower, "checking your browser"@)
    ||| seq_contains(lower, "just a moment"@)
    ||| seq_contains(lower, "cf-browser-verification"@)
    ||| seq_contains(lower, "challenges.cloudflare.com/turnstile"@)
    ||| (seq_contains(lower, "challenge-platform"@) && seq_contains(lower, "__cf$cv$params"@))
}

/// The page text `html` still looks like an active Cloudflare interstitial.
pub open spec fn is_challenge_page(html: Seq<char>) -> bool {
    challenge_markers(unicode_lowercase(html))
}

/// A cookie that grants Cloudflare clearance: named `cf_clearance`, with a
/// value.
pub open spec fn is_clearance_cookie(c: CookieInfo) -> bool {
    c.name@ == "cf_clearance"@ && c.value@.len() > 0
}

/// Some cookie of `cookies` grants Cloudflare clearance.
pub open spec fn has_clearance(cookies: Seq<CookieInfo>) -> bool {
    exists|i: int| 0 <= i < cookies.len() && is_clearance_cookie(#[trigger] cookies[i])
}

fn contains_literal(hay: &Vec<char>, needle: &str) -> (b: bool)
    ensures
        b == seq_contains(hay@, needle@),
{
    let n = chars_of(needle);
    contains_chars(hay, &n)
}

/// Whether the already lowercased page text `lower` carries a challenge
/// marker.
pub fn has_challenge_markers(lower: &str) -> (b: bool)
    ensures
        b == challenge_markers(lower@),
        b <==> (seq_contains(lower@, "checking your browser"@) || seq_contains(
            lower@,
            "just a moment"@,
        ) || seq_contains(lower@, "cf-browser-verification"@) || seq_contains(
            lower@,
            "challenges.cloudflare.com/turnstile"@,
        ) || (seq_contains(lower@, "challenge-platform"@) && seq_contains(
            lower@,
            "__cf$cv$params"@,
        ))),
{
    let hay = chars_of(lower);
    contains_literal(&hay, "checking your browser") || contains_literal(&hay, "just a moment")
        || contains_literal(&hay, "cf-browser-verification") || contains_literal(
        &hay,
        "challenges.cloudflare.com/turnstile",
    ) || (contains_literal(&hay, "challenge-platform") && contains_literal(&hay, "__cf$cv$params"))
}

/// Heuristic: page HTML still looks like an active Cloudflare interstitial.
pub fn is_cloudflare_challenge(html: &str) -> (b: bool)
    ensures
        b == is_challenge_page(html@),
        is_ascii_chars(html@) ==> b == challenge_markers(ascii_lowercase(html@)),
{
    let lower = to_lowercase(html);
    has_challenge_markers(lower.as_str())
}

/// Whether some cookie grants Cloudflare clearance.
pub fn has_cf_clearance(cookies: &[CookieInfo]) -> (b: bool)
    ensures
        b == has_clearance(cookies@),
        b <==> exists|i: int|
            0 <= i < cookies@.len() && (#[trigger] cookies@[i]).name@ == "cf_clearance"@
                && cookies@[i].value@.len() > 0,
{
    let mut i: usize = 0;
    while i < cookies.len()
        invariant
            i <= cookies.len(),
            forall|j: int| 0 <= j < i ==> !is_clearance_cookie(#[trigger] cookies@[j]),
        decreases cookies.len() - i,
    {
        let c = &cookies[i];
        if str_eq(c.name.as_str(), "cf_clearance") && !c.value.as_str().is_empty() {
            return true;
        }
        i = i + 1;
    }
    false
}

} // verus!
