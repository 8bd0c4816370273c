//! Properties of the library that span several calls.
use vstd::prelude::*;

use crate::challenge::{challenge_markers, has_clearance, CookieInfo};
use crate::http::{
    apply_settings, defaults_for, effective_timeout_of, env_defaults_of, with_solver_defaults,
};
use crate::session::{touch_accepts, touched, BrowserSession, SessionStore};
use crate::solve::{reports_cookies, solve_message_text};
use crate::text::{
    ascii_lowercase, decimal, has_prefix, is_digit, lemma_decimal_facts,
    lemma_parse_decimal_roundtrip, lemma_trim_bounds, parse_usize_spec, seq_contains, trim,
};
use crate::wire::{
    content_length_of_lowered, reason_text, response_head_text, route_of, MAX_BODY_BYTES,
};
use vstd::utf8::is_ascii_chars;

verus! {

/// The sessions `m` after `n` requests of session `id` are counted under the
/// limit `max`, whether or not each was accepted.
pub open spec fn after_touches<C, P>(
    m: Map<Seq<char>, BrowserSession<C, P>>,
    id: Seq<char>,
    max: u32,
    n: nat,
) -> Map<Seq<char>, BrowserSession<C, P>>
    decreases n,
{
    if n == 0 {
        m
    } else {
        touched(after_touches(m, id, max, (n - 1) as nat), id, max)
    }
}

/// A new session serves exactly `max` requests: after `n` requests are
/// counted against it its count is the smaller of `n` and `max`, and it
/// accepts another request exactly while `n < max`; every request beyond
/// the limit is refused.
pub proof fn law_session_request_budget<C, P>(
    m: Map<Seq<char>, BrowserSession<C, P>>,
    id: Seq<char>,
    max: u32,
    n: nat,
)
    requires
        m.contains_key(id),
        m[id].requests == 0,
    ensures
        after_touches(m, id, max, n).contains_key(id),
        after_touches(m, id, max, n)[id].requests == if n < max {
            n
        } else {
            max as nat
        },
        touch_accepts(after_touches(m, id, max, n), id, max) <==> n < max,
    decreases n,
{
    if n > 0 {
        law_session_request_budget(m, id, max, (n - 1) as nat);
    }
}

/// Counting requests never takes a session past the limit: when every
/// session is within `max`, every session still is afterwards.
pub proof fn law_touch_keeps_within_limit<C, P>(
    m: Map<Seq<char>, BrowserSession<C, P>>,
    id: Seq<char>,
    max: u32,
)
    requires
        forall|k: Seq<char>| #[trigger] m.contains_key(k) ==> m[k].requests <= max,
    ensures
        forall|k: Seq<char>|
            #[trigger] touched(m, id, max).contains_key(k) ==> touched(m, id, max)[k].requests
                <= max,
{
}

/// Counting a request of one session leaves every other session as it was.
pub proof fn law_touch_is_local<C, P>(
    m: Map<Seq<char>, BrowserSession<C, P>>,
    id: Seq<char>,
    other: Seq<char>,
    max: u32,
)
    requires
        other != id,
    ensures
        touched(m, id, max).contains_key(other) == m.contains_key(other),
        m.contains_key(other) ==> touched(m, id, max)[other] == m[other],
{
}

/// Destroying a session that was just created leaves the sessions as they
/// were before, and a second destroy of the same id finds nothing.
pub proof fn law_destroy_undoes_create<C, P>(
    m: Map<Seq<char>, BrowserSession<C, P>>,
    id: Seq<char>,
    s: BrowserSession<C, P>,
)
    requires
        !m.contains_key(id),
    ensures
        m.insert(id, s).contains_key(id),
        m.insert(id, s).remove(id) == m,
        !m.insert(id, s).remove(id).contains_key(id),
{
    assert(m.insert(id, s).remove(id) =~= m);
}

/// A session that `create` added under a fresh id is listed, last, after
/// every session that was there before.
pub proof fn law_created_session_is_listed<C, P>(
    before: SessionStore<C, P>,
    after: SessionStore<C, P>,
    id: Seq<char>,
)
    requires
        before.wf(),
        after.wf(),
        !before@.contains_key(id),
        after.ids() == before.ids().push(id),
    ensures
        after@.contains_key(id),
        after.ids().last() == id,
        forall|k: Seq<char>| before@.contains_key(k) ==> #[trigger] after@.contains_key(k),
{
    before.lemma_ids();
    after.lemma_ids();
    assert(after.ids()[after.ids().len() - 1] == id);
    assert forall|k: Seq<char>| before@.contains_key(k) implies #[trigger] after@.contains_key(
        k,
    ) by {
        let j = choose|j: int| 0 <= j < before.ids().len() && before.ids()[j] == k;
        assert(after.ids()[j] == k);
    }
}

/// A session that `destroy` removed is no longer listed.
pub proof fn law_destroyed_session_is_unlisted<C, P>(
    before: SessionStore<C, P>,
    after: SessionStore<C, P>,
    id: Seq<char>,
    i: int,
)
    requires
        before.wf(),
        0 <= i < before.ids().len(),
        before.ids()[i] == id,
        after.ids() == before.ids().remove(i),
    ensures
        !after.ids().contains(id),
        after.ids().len() == before.ids().len() - 1,
{
    before.lemma_ids();
    if after.ids().contains(id) {
        let j = choose|j: int| 0 <= j < after.ids().len() && after.ids()[j] == id;
        if j < i {
            assert(before.ids()[j] == id);
        } else {
            assert(before.ids()[j + 1] == id);
        }
    }
}

/// Whether some cookie grants clearance does not depend on the order of
/// the cookies.
pub proof fn law_clearance_ignores_order(a: Seq<CookieInfo>, p: Seq<CookieInfo>)
    requires
        a.to_multiset() == p.to_multiset(),
    ensures
        has_clearance(a) == has_clearance(p),
{
    a.to_multiset_ensures();
    p.to_multiset_ensures();
    if has_clearance(a) {
        let i = choose|i: int| 0 <= i < a.len() && crate::challenge::is_clearance_cookie(
            #[trigger] a[i],
        );
        assert(a.contains(a[i]));
        assert(a.to_multiset().count(a[i]) > 0);
        assert(p.contains(a[i]));
        let j = choose|j: int| 0 <= j < p.len() && p[j] == a[i];
        assert(crate::challenge::is_clearance_cookie(p[j]));
    }
    if has_clearance(p) {
        let i = choose|i: int| 0 <= i < p.len() && crate::challenge::is_clearance_cookie(
            #[trigger] p[i],
        );
        assert(p.contains(p[i]));
        assert(p.to_multiset().count(p[i]) > 0);
        assert(a.contains(p[i]));
        let j = choose|j: int| 0 <= j < a.len() && a[j] == p[i];
        assert(crate::challenge::is_clearance_cookie(a[j]));
    }
}

/// A list of cookies grants clearance exactly when one of its two parts does.
pub proof fn law_clearance_of_concat(a: Seq<CookieInfo>, b: Seq<CookieInfo>)
    ensures
        has_clearance(a + b) == (has_clearance(a) || has_clearance(b)),
{
    if has_clearance(a + b) {
        let i = choose|i: int| 0 <= i < (a + b).len() && crate::challenge::is_clearance_cookie(
            #[trigger] (a + b)[i],
        );
        if i >= a.len() {
            assert(b[i - a.len()] == (a + b)[i]);
        }
    }
    if has_clearance(a) {
        let i = choose|i: int| 0 <= i < a.len() && crate::challenge::is_clearance_cookie(
            #[trigger] a[i],
        );
        assert((a + b)[i] == a[i]);
    }
    if has_clearance(b) {
        let i = choose|i: int| 0 <= i < b.len() && crate::challenge::is_clearance_cookie(
            #[trigger] b[i],
        );
        assert((a + b)[a.len() + i] == b[i]);
    }
}

/// Reporting cookies goes part by part: the reports of two lists of cookies,
/// joined, report the joined list, and the report of a joined list splits
/// into the reports of its parts.
pub proof fn law_reports_cookies_concat(
    x: Seq<crate::api::FlareCookie>,
    y: Seq<crate::api::FlareCookie>,
    a: Seq<CookieInfo>,
    b: Seq<CookieInfo>,
)
    ensures
        reports_cookies(x, a) && reports_cookies(y, b) ==> reports_cookies(x + y, a + b),
        reports_cookies(x, a + b) ==> reports_cookies(x.take(a.len() as int), a)
            && reports_cookies(x.skip(a.len() as int), b),
{
    if reports_cookies(x, a) && reports_cookies(y, b) {
        assert forall|i: int| 0 <= i < (x + y).len() implies crate::solve::reports_cookie(
            #[trigger] (x + y)[i],
            (a + b)[i],
        ) by {
            if i < x.len() {
                assert((x + y)[i] == x[i]);
                assert((a + b)[i] == a[i]);
            } else {
                assert((x + y)[i] == y[i - x.len()]);
                assert((a + b)[i] == b[i - a.len()]);
            }
        }
    }
    if reports_cookies(x, a + b) {
        let l = a.len() as int;
        assert forall|i: int| 0 <= i < x.take(l).len() implies crate::solve::reports_cookie(
            #[trigger] x.take(l)[i],
            a[i],
        ) by {
            assert(x.take(l)[i] == x[i]);
            assert((a + b)[i] == a[i]);
        }
        assert forall|i: int| 0 <= i < x.skip(l).len() implies crate::solve::reports_cookie(
            #[trigger] x.skip(l)[i],
            b[i],
        ) by {
            assert(x.skip(l)[i] == x[l + i]);
            assert((a + b)[l + i] == b[i]);
        }
    }
}

proof fn lemma_apply_settings_keys(env: Map<Seq<char>, Seq<char>>, pairs: Seq<(Seq<char>, Seq<char>)>)
    ensures
        forall|k: Seq<char>| env.contains_key(k) ==> #[trigger] apply_settings(env, pairs).contains_key(k),
        forall|i: int|
            0 <= i < pairs.len() ==> apply_settings(env, pairs).contains_key(#[trigger] pairs[i].0),
    decreases pairs.len(),
{
    if pairs.len() > 0 {
        lemma_apply_settings_keys(env, pairs.drop_last());
        assert forall|k: Seq<char>| env.contains_key(k) implies #[trigger] apply_settings(
            env,
            pairs,
        ).contains_key(k) by {
            assert(apply_settings(env, pairs.drop_last()).contains_key(k));
        }
        assert forall|i: int| 0 <= i < pairs.len() implies apply_settings(env, pairs).contains_key(
            #[trigger] pairs[i].0,
        ) by {
            if i < pairs.len() - 1 {
                assert(pairs.drop_last()[i] == pairs[i]);
            }
        }
    }
}

/// Applying the solver defaults a second time changes nothing: after the
/// first time all three solver variables are set, so no setting is left to
/// make.
pub proof fn law_solver_defaults_idempotent(env: Map<Seq<char>, Seq<char>>)
    ensures
        with_solver_defaults(env).contains_key("OBSCURA_SCRIPT_DEADLINE_MS"@),
        with_solver_defaults(env).contains_key("OBSCURA_NAV_TIMEOUT_MS"@),
        with_solver_defaults(env).contains_key("OBSCURA_FETCH_TIMEOUT_MS"@),
        defaults_for(with_solver_defaults(env)).len() == 0,
        with_solver_defaults(with_solver_defaults(env)) == with_solver_defaults(env),
{
    let d = defaults_for(env);
    lemma_apply_settings_keys(env, d);
    let s = "OBSCURA_SCRIPT_DEADLINE_MS"@;
    let n = "OBSCURA_NAV_TIMEOUT_MS"@;
    let f = "OBSCURA_FETCH_TIMEOUT_MS"@;
    let a: Seq<(Seq<char>, Seq<char>)> = if env.contains_key(s) {
        Seq::empty()
    } else {
        seq![(s, "120000"@)]
    };
    let b: Seq<(Seq<char>, Seq<char>)> = if env.contains_key(n) {
        Seq::empty()
    } else {
        seq![(n, "130000"@)]
    };
    let c: Seq<(Seq<char>, Seq<char>)> = if env.contains_key(f) {
        Seq::empty()
    } else {
        seq![(f, "120000"@)]
    };
    assert(d == a + b + c);
    if !env.contains_key(s) {
        assert(d[0].0 == s);
    }
    if !env.contains_key(n) {
        assert(d[a.len() as int].0 == n);
    }
    if !env.contains_key(f) {
        assert(d[(a.len() + b.len()) as int].0 == f);
    }
    let w = with_solver_defaults(env);
    assert(defaults_for(w) =~= Seq::<(Seq<char>, Seq<char>)>::empty());
}

/// The `Content-Length` header line that a response head carries reads
/// back, by the rule that header lines are read with, as the body length it
/// was written from.
pub proof fn law_content_length_reads_back(len: usize)
    ensures
        is_ascii_chars("Content-Length: "@ + decimal(len as nat)),
        content_length_of_lowered(ascii_lowercase("Content-Length: "@ + decimal(len as nat)), None)
            == Some(len),
{
    reveal_strlit("Content-Length: ");
    reveal_strlit("content-length:");
    lemma_decimal_facts(len as nat);
    lemma_parse_decimal_roundtrip(len);
    let d = decimal(len as nat);
    let s = "Content-Length: "@ + d;
    let target = "content-length:"@ + seq![' '] + d;
    assert forall|i: int| 0 <= i < d.len() implies ('\0' <= #[trigger] d[i] <= '\u{7f}') by {
        assert(is_digit(d[i]));
    }
    assert forall|i: int| 0 <= i < s.len() implies ('\0' <= #[trigger] s[i] <= '\u{7f}') by {
        if i >= 16 {
            assert(s[i] == d[i - 16]);
        }
    }
    let l = ascii_lowercase(s);
    assert(l =~= target) by {
        assert forall|i: int| 0 <= i < l.len() implies #[trigger] l[i] == target[i] by {
            if i >= 16 {
                assert(s[i] == d[i - 16]);
                assert(target[i] == d[i - 16]);
                assert(is_digit(d[i - 16]));
            }
        }
    }
    assert(has_prefix(l, "content-length:"@)) by {
        assert(l.subrange(0, 15) =~= "content-length:"@);
    }
    let rest = l.subrange(15, l.len() as int);
    assert(rest =~= seq![' '] + d);
    assert(is_digit(d[0]));
    assert(is_digit(d[d.len() - 1]));
    assert(rest[1] == d[0]);
    assert(rest[rest.len() - 1] == d[d.len() - 1]);
    lemma_trim_bounds(rest, 1, rest.len() as int);
    assert(rest.subrange(1, rest.len() as int) =~= d);
}

/// A header line that does not begin with `content-length:` (after
/// lowercasing) leaves the content length as it was; one that does sets it
/// to its value, parsed after trimming, whatever the length was before.
pub proof fn law_only_content_length_sets_length(
    lower: Seq<char>,
    value: Seq<char>,
    current: Option<usize>,
    other: Option<usize>,
)
    ensures
        !(lower.len() >= "content-length:"@.len() && lower.subrange(
            0,
            "content-length:"@.len() as int,
        ) == "content-length:"@) ==> content_length_of_lowered(lower, current) == current,
        content_length_of_lowered("content-length:"@ + value, current) == parse_usize_spec(
            trim(value),
        ),
        content_length_of_lowered("content-length:"@ + value, current)
            == content_length_of_lowered("content-length:"@ + value, other),
{
    let l = "content-length:"@ + value;
    assert(l.subrange(0, "content-length:"@.len() as int) =~= "content-length:"@);
    assert(l.subrange("content-length:"@.len() as int, l.len() as int) =~= value);
}

/// A `maxTimeout` inside 1..=300000 is used as given; one above is cut to
/// 300000, zero becomes 1, and none gives 120000. Larger requests never get
/// a smaller budget.
pub proof fn law_timeout_in_range_is_kept(t: u64, u: u64)
    ensures
        1 <= t <= 300000 ==> effective_timeout_of(Some(t)) == t,
        t > 300000 ==> effective_timeout_of(Some(t)) == 300000,
        effective_timeout_of(Some(0)) == 1,
        effective_timeout_of(None) == 120000,
        t <= u ==> effective_timeout_of(Some(t)) <= effective_timeout_of(Some(u)),
        1 <= effective_timeout_of(Some(t)) <= 300000,
{
}

/// A lowercased page text marks a challenge exactly when it contains one of
/// the interstitial markers: "checking your browser", "just a moment",
/// "cf-browser-verification", "challenges.cloudflare.com/turnstile", or both
/// "challenge-platform" and "__cf$cv$params". A text with none of these
/// marker strings is no challenge, whatever else it mentions.
pub proof fn law_challenge_markers_are_exact(lower: Seq<char>)
    ensures
        challenge_markers(lower) <==> (seq_contains(lower, "checking your browser"@)
            || seq_contains(lower, "just a moment"@) || seq_contains(
            lower,
            "cf-browser-verification"@,
        ) || seq_contains(lower, "challenges.cloudflare.com/turnstile"@) || (seq_contains(
            lower,
            "challenge-platform"@,
        ) && seq_contains(lower, "__cf$cv$params"@))),
        !seq_contains(lower, "checking your browser"@) && !seq_contains(lower, "just a moment"@)
            && !seq_contains(lower, "cf-browser-verification"@) && !seq_contains(
            lower,
            "challenges.cloudflare.com/turnstile"@,
        ) && !seq_contains(lower, "__cf$cv$params"@) ==> !challenge_markers(lower),
{
}

/// Clearance depends on cookie names and values only: a cookie named
/// `cf_clearance` with a value grants it, whatever its domain, path, flags
/// or expiry; and two lists whose cookies agree in name and value, position
/// by position, grant it alike.
pub proof fn law_clearance_by_name_and_value(
    c: CookieInfo,
    a: Seq<CookieInfo>,
    b: Seq<CookieInfo>,
)
    ensures
        has_clearance(a) <==> exists|i: int|
            0 <= i < a.len() && (#[trigger] a[i]).name@ == "cf_clearance"@ && a[i].value@.len()
                > 0,
        c.name@ == "cf_clearance"@ && c.value@.len() > 0 ==> has_clearance(seq![c]),
        a.len() == b.len() && (forall|i: int|
            0 <= i < a.len() ==> (#[trigger] a[i]).name@ == b[i].name@ && a[i].value@ == b[i].value@)
            ==> has_clearance(a) == has_clearance(b),
{
    if c.name@ == "cf_clearance"@ && c.value@.len() > 0 {
        assert(seq![c][0] == c);
    }
    if a.len() == b.len() && (forall|i: int|
        0 <= i < a.len() ==> (#[trigger] a[i]).name@ == b[i].name@ && a[i].value@ == b[i].value@) {
        if has_clearance(a) {
            let i = choose|i: int| 0 <= i < a.len() && crate::challenge::is_clearance_cookie(
                #[trigger] a[i],
            );
            assert(crate::challenge::is_clearance_cookie(b[i]));
        }
        if has_clearance(b) {
            let i = choose|i: int| 0 <= i < b.len() && crate::challenge::is_clearance_cookie(
                #[trigger] b[i],
            );
            assert(a[i].name@ == b[i].name@);
            assert(crate::challenge::is_clearance_cookie(a[i]));
        }
    }
}

/// The status line of a response head carries the status it was written
/// for: after `HTTP/1.1 ` come the digits of the status, which read back as
/// that status, then a space and the reason phrase (`OK` for 200,
/// `Not Found` for 404, `Error` otherwise).
pub proof fn law_status_line_carries_status(status: u16, len: usize)
    ensures
        ({
            let h = response_head_text(status, len);
            let d = decimal(status as nat);
            let k = d.len() as int;
            let r = reason_text(status);
            &&& h.subrange(0, 9) == "HTTP/1.1 "@
            &&& parse_usize_spec(h.subrange(9, 9 + k)) == Some(status as usize)
            &&& h[9 + k] == ' '
            &&& h.subrange(10 + k, 10 + k + r.len()) == r
        }),
        status == 200 ==> reason_text(status) == "OK"@,
        status == 404 ==> reason_text(status) == "Not Found"@,
        status != 200 && status != 404 ==> reason_text(status) == "Error"@,
{
    reveal_strlit("HTTP/1.1 ");
    reveal_strlit(" ");
    let h = response_head_text(status, len);
    let d = decimal(status as nat);
    let r = reason_text(status);
    let k = d.len() as int;
    lemma_parse_decimal_roundtrip(status as usize);
    let p = "HTTP/1.1 "@ + d + " "@ + r;
    let rest = "\r\nContent-Type: application/json\r\nContent-Length: "@ + decimal(len as nat)
        + "\r\nConnection: close\r\n\r\n"@;
    assert(h =~= p + rest);
    assert(h.subrange(0, 9) =~= "HTTP/1.1 "@);
    assert(h.subrange(9, 9 + k) =~= d);
    assert(h[9 + k] == " "@[0]);
    assert(h.subrange(10 + k, 10 + k + r.len()) =~= r);
}

/// Only `POST /` and `POST /v1` reach the command handler and only
/// `GET /health` the health check; every other method or path is not found.
pub proof fn law_routes(m: Seq<char>, p: Seq<char>)
    ensures
        (route_of(m, p) is Command) <==> (m == "POST"@ && (p == "/"@ || p == "/v1"@)),
        (route_of(m, p) is Health) <==> (m == "GET"@ && p == "/health"@),
        (route_of(m, p) is NotFound) <==> !(m == "POST"@ && (p == "/"@ || p == "/v1"@)) && !(m
            == "GET"@ && p == "/health"@),
{
    reveal_strlit("POST");
    reveal_strlit("GET");
    assert("GET"@.len() != "POST"@.len());
}

/// The body limit is 4 MiB: a declared body up to that size is read in full,
/// a larger one is refused.
pub proof fn law_body_limit(n: usize)
    ensures
        MAX_BODY_BYTES == 4 * 1024 * 1024,
        n <= 4 * 1024 * 1024 ==> !(n > MAX_BODY_BYTES),
{
}

/// A solve reports "Challenge solved!" exactly when a challenge was seen and
/// a cookie named `cf_clearance` with a value is there, and "Challenge not
/// detected!" otherwise.
pub proof fn law_solve_message(saw: bool, cookies: Seq<CookieInfo>)
    ensures
        solve_message_text(saw, cookies) == (if saw && exists|i: int|
            0 <= i < cookies.len() && (#[trigger] cookies[i]).name@ == "cf_clearance"@
                && cookies[i].value@.len() > 0 {
            "Challenge solved!"@
        } else {
            "Challenge not detected!"@
        }),
{
    law_clearance_by_name_and_value(cookies[0], cookies, cookies);
}

/// Each reported cookie carries the name, value, domain and path of the
/// cookie at the same position, and nothing is added or dropped.
pub proof fn law_cookie_report_fields(out: Seq<crate::api::FlareCookie>, cookies: Seq<CookieInfo>)
    requires
        reports_cookies(out, cookies),
    ensures
        out.len() == cookies.len(),
        forall|i: int|
            0 <= i < out.len() ==> {
                &&& (#[trigger] out[i]).name@ == cookies[i].name@
                &&& out[i].value@ == cookies[i].value@
                &&& out[i].domain is Some && out[i].domain->0@ == cookies[i].domain@
                &&& out[i].path is Some && out[i].path->0@ == cookies[i].path@
            },
{
    assert forall|i: int| 0 <= i < out.len() implies {
        &&& (#[trigger] out[i]).name@ == cookies[i].name@
        &&& out[i].value@ == cookies[i].value@
        &&& out[i].domain is Some && out[i].domain->0@ == cookies[i].domain@
        &&& out[i].path is Some && out[i].path->0@ == cookies[i].path@
    } by {
        assert(crate::solve::reports_cookie(out[i], cookies[i]));
    }
}

/// The solver defaults are a script deadline of 120000 ms, a navigation
/// timeout of 130000 ms and a fetch timeout of 120000 ms, each given only
/// where the variable is not set; a variable already set keeps its value.
pub proof fn law_solver_default_values(env: Map<Seq<char>, Seq<char>>)
    ensures
        env_defaults_of(false, false, false) == seq![
            ("OBSCURA_SCRIPT_DEADLINE_MS"@, "120000"@),
            ("OBSCURA_NAV_TIMEOUT_MS"@, "130000"@),
            ("OBSCURA_FETCH_TIMEOUT_MS"@, "120000"@),
        ],
        env_defaults_of(true, true, true).len() == 0,
        forall|s: bool, n: bool, f: bool| #[trigger] env_defaults_of(s, n, f).len() == (if s {
            0int
        } else {
            1int
        }) + (if n {
            0int
        } else {
            1int
        }) + (if f {
            0int
        } else {
            1int
        }),
{
    assert(env_defaults_of(false, false, false) =~= seq![
        ("OBSCURA_SCRIPT_DEADLINE_MS"@, "120000"@),
        ("OBSCURA_NAV_TIMEOUT_MS"@, "130000"@),
        ("OBSCURA_FETCH_TIMEOUT_MS"@, "120000"@),
    ]);
    assert(env_defaults_of(true, true, true) =~= Seq::<(Seq<char>, Seq<char>)>::empty());
}

} // verus!
