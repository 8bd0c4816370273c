//! The server's configuration and state, and the handling of API commands.
use vstd::prelude::*;

use crate::api::{is_err_response, is_ok_response, RequestBody, ResponseBody};
use crate::session::{
    counted, exhausted_message, is_uuid_v4_text, not_found_message, BrowserSession, BrowserSpec,
    SessionStore,
};
use crate::solve::{SolveOptions, SolveResult};
use crate::text::{append_str, copy_opt, copy_str, is_blank, is_blank_str, opt_view, str_eq};

verus! {

/// How the server is started.
pub struct ServerConfig {
    pub host: String,
    pub port: u16,
    pub stealth: bool,
    pub proxy: Option<String>,
    pub user_agent: Option<String>,
    pub max_requests_per_session: u32,
}

/// What the server keeps between requests.
pub struct ServerState<C, P> {
    pub sessions: SessionStore<C, P>,
    pub stealth: bool,
    pub proxy: Option<String>,
    pub user_agent: Option<String>,
}

/// What answering a command takes.
pub enum Dispatch {
    /// Send this answer.
    Respond(ResponseBody),
    /// Solve `url` in the named session's browser, then answer with
    /// `solve_response`.
    SolveInSession { session_id: String, url: String, max_timeout_ms: u64 },
    /// Solve in a fresh browser, then answer with `solve_response`.
    SolveEphemeral(SolveOptions),
}

/// The timeout a page request runs with: `maxTimeout` (120000 when absent)
/// brought into 1..=300000.
pub open spec fn effective_timeout_of(max_timeout: Option<u64>) -> u64 {
    let t = match max_timeout {
        Some(t) => t,
        None => 120000u64,
    };
    if t < 1 {
        1
    } else if t > 300000 {
        300000
    } else {
        t
    }
}

/// `s` quoted as `{:?}` quotes a string that needs no escapes.
pub open spec fn quoted(s: Seq<char>) -> Seq<char> {
    "\""@ + s + "\""@
}

/// The quoted strings of `ids`, separated by `", "`.
pub open spec fn join_quoted(ids: Seq<Seq<char>>) -> Seq<char>
    decreases ids.len(),
{
    if ids.len() == 0 {
        Seq::empty()
    } else if ids.len() == 1 {
        quoted(ids[0])
    } else {
        join_quoted(ids.drop_last()) + ", "@ + quoted(ids.last())
    }
}

/// The list `ids` as `{:?}` prints a `Vec<String>` whose strings need no
/// escapes.
pub open spec fn debug_list_text(ids: Seq<Seq<char>>) -> Seq<char> {
    "["@ + join_quoted(ids) + "]"@
}

/// The environment settings to make, as (name, value) pairs, given which of
/// the three solver variables are set already.
pub open spec fn env_defaults_of(script_set: bool, nav_set: bool, fetch_set: bool) -> Seq<
    (Seq<char>, Seq<char>),
> {
    (if script_set {
        Seq::empty()
    } else {
        seq![("OBSCURA_SCRIPT_DEADLINE_MS"@, "120000"@)]
    }) + (if nav_set {
        Seq::empty()
    } else {
        seq![("OBSCURA_NAV_TIMEOUT_MS"@, "130000"@)]
    }) + (if fetch_set {
        Seq::empty()
    } else {
        seq![("OBSCURA_FETCH_TIMEOUT_MS"@, "120000"@)]
    })
}

/// The environment `env` (variable name to value) after the settings
/// `pairs` are made in order.
pub open spec fn apply_settings(
    env: Map<Seq<char>, Seq<char>>,
    pairs: Seq<(Seq<char>, Seq<char>)>,
) -> Map<Seq<char>, Seq<char>>
    decreases pairs.len(),
{
    if pairs.len() == 0 {
        env
    } else {
        apply_settings(env, pairs.drop_last()).insert(pairs.last().0, pairs.last().1)
    }
}

/// The settings that give the solver its defaults in the environment `env`.
pub open spec fn defaults_for(env: Map<Seq<char>, Seq<char>>) -> Seq<(Seq<char>, Seq<char>)> {
    env_defaults_of(
        env.contains_key("OBSCURA_SCRIPT_DEADLINE_MS"@),
        env.contains_key("OBSCURA_NAV_TIMEOUT_MS"@),
        env.contains_key("OBSCURA_FETCH_TIMEOUT_MS"@),
    )
}

/// The environment `env` once the solver defaults are applied to it.
pub open spec fn with_solver_defaults(env: Map<Seq<char>, Seq<char>>) -> Map<
    Seq<char>,
    Seq<char>,
> {
    apply_settings(env, defaults_for(env))
}

/// `pairs` viewed as pairs of character sequences.
pub open spec fn pairs_view(pairs: Seq<(&str, &str)>) -> Seq<(Seq<char>, Seq<char>)> {
    pairs.map_values(|p: (&str, &str)| (p.0@, p.1@))
}

/// The environment settings that give the solver its defaults where the
/// operator set none: script deadline 120000 ms, navigation timeout
/// 130000 ms, fetch timeout 120000 ms.
pub fn solver_env_defaults(script_set: bool, nav_set: bool, fetch_set: bool) -> (r: Vec<
    (&'static str, &'static str),
>)
    ensures
        pairs_view(r@) == env_defaults_of(script_set, nav_set, fetch_set),
{
    let mut r: Vec<(&'static str, &'static str)> = Vec::new();
    if !script_set {
        r.push(("OBSCURA_SCRIPT_DEADLINE_MS", "120000"));
    }
    if !nav_set {
        r.push(("OBSCURA_NAV_TIMEOUT_MS", "130000"));
    }
    if !fetch_set {
        r.push(("OBSCURA_FETCH_TIMEOUT_MS", "120000"));
    }
    assert(pairs_view(r@) =~= env_defaults_of(script_set, nav_set, fetch_set));
    r
}

/// The timeout a page request runs with.
pub fn effective_timeout(max_timeout: Option<u64>) -> (t: u64)
    ensures
        t == effective_timeout_of(max_timeout),
        1 <= t <= 300000,
        max_timeout is None ==> t == 120000,
        forall|x: u64| max_timeout == Some(x) && 1 <= x <= 300000 ==> t == x,
        forall|x: u64| max_timeout == Some(x) && x > 300000 ==> t == 300000,
        max_timeout == Some(0u64) ==> t == 1,
{
    let t = match max_timeout {
        Some(t) => t,
        None => 120000,
    };
    if t < 1 {
        1
    } else if t > 300000 {
        300000
    } else {
        t
    }
}

/// The session ids in the form `{:?}` prints a list of them.
pub fn debug_list(ids: &Vec<String>) -> (s: String)
    ensures
        s@ == debug_list_text(ids@.map_values(|x: String| x@)),
{
    let ghost v = ids@.map_values(|x: String| x@);
    let mut s = copy_str("[");
    let mut i: usize = 0;
    while i < ids.len()
        invariant
            i <= ids.len(),
            v == ids@.map_values(|x: String| x@),
            s@ == "["@ + join_quoted(v.take(i as int)),
        decreases ids.len() - i,
    {
        if i > 0 {
            append_str(&mut s, ", ");
        }
        append_str(&mut s, "\"");
        append_str(&mut s, ids[i].as_str());
        append_str(&mut s, "\"");
        proof {
            let t = v.take(i + 1);
            assert(t.drop_last() =~= v.take(i as int));
            assert(t.last() == ids@[i as int]@);
            assert(s@ =~= "["@ + join_quoted(t));
        }
        i = i + 1;
    }
    append_str(&mut s, "]");
    proof {
        assert(v.take(ids.len() as int) =~= v);
    }
    s
}

/// The answer to a page request once its solve is over.
pub fn solve_response(outcome: Result<SolveResult, String>, session: Option<String>) -> (r:
    ResponseBody)
    ensures
        match outcome {
            Ok(res) => r.status@ == "ok"@ && r.message == Some(res.message) && r.session == session
                && r.solution == Some(res.solution),
            Err(e) => r.status@ == "error"@ && r.message == Some(e) && r.session is None
                && r.solution is None,
        },
{
    match outcome {
        Ok(res) => ResponseBody::ok(res.message, session, Some(res.solution)),
        Err(e) => ResponseBody::err(e),
    }
}

fn err_text(prefix: &str, detail: &str) -> (r: ResponseBody)
    ensures
        is_err_response(r, prefix@ + detail@),
{
    let mut m = copy_str(prefix);
    append_str(&mut m, detail);
    ResponseBody::err(m)
}

fn err_literal(text: &str) -> (r: ResponseBody)
    ensures
        is_err_response(r, text@),
{
    ResponseBody::err(copy_str(text))
}

impl<C, P> ServerState<C, P> {
    /// The state of a freshly started server.
    pub fn new(cfg: &ServerConfig) -> (r: Self)
        ensures
            r.sessions.wf(),
            r.sessions@ == Map::<Seq<char>, BrowserSession<C, P>>::empty(),
            r.sessions.ids() == Seq::<Seq<char>>::empty(),
            r.sessions.max_requests() == cfg.max_requests_per_session,
            r.stealth == cfg.stealth,
            opt_view(r.proxy) == opt_view(cfg.proxy),
            opt_view(r.user_agent) == opt_view(cfg.user_agent),
    {
        ServerState {
            sessions: SessionStore::new(cfg.max_requests_per_session),
            stealth: cfg.stealth,
            proxy: copy_opt(&cfg.proxy),
            user_agent: copy_opt(&cfg.user_agent),
        }
    }
}

/// `b` answers `sessions.create` with the id of a new session, whose
/// browser `make_browser` built from a spec named after the id with the
/// server's proxy, stealth mode and user agent of `pre`, and `post` is the
/// sessions of `pre` with that session added.
pub open spec fn session_created<C, P, F: FnOnce(BrowserSpec) -> (C, P)>(
    b: ResponseBody,
    pre: ServerState<C, P>,
    post: Map<Seq<char>, BrowserSession<C, P>>,
    make_browser: F,
) -> bool {
    &&& is_ok_response(b, "Session created"@)
    &&& b.session is Some
    &&& is_uuid_v4_text(b.session->0@)
    &&& exists|spec: BrowserSpec, cp: (C, P)|
        spec.context_name@ == "solverr-"@ + b.session->0@ && spec.page_name@ == "solverr-page-"@
            + b.session->0@ && opt_view(spec.proxy) == opt_view(pre.proxy) && spec.stealth
            == pre.stealth && opt_view(spec.user_agent) == opt_view(pre.user_agent)
            && make_browser.ensures((spec,), cp) && post == pre.sessions@.insert(
            b.session->0@,
            BrowserSession { context: cp.0, page: cp.1, requests: 0 },
        )
}

/// `url` is there and holds more than white space.
pub open spec fn url_given(url: Option<String>) -> bool {
    match url {
        Some(u) => !is_blank(u@),
        None => false,
    }
}

/// `d` and `post` (the sessions afterwards) are what a `request.get` with
/// body `req` decides in state `pre`.
pub open spec fn request_get_planned<C, P>(
    req: RequestBody,
    pre: ServerState<C, P>,
    d: Dispatch,
    post: Map<Seq<char>, BrowserSession<C, P>>,
) -> bool {
    let m = pre.sessions@;
    let max = pre.sessions.max_requests();
    if !url_given(req.url) {
        &&& d matches Dispatch::Respond(b) && is_err_response(b, "url is required"@)
        &&& post == m
    } else {
        let url = req.url->0;
        let t = effective_timeout_of(req.max_timeout);
        match req.session {
            None => {
                &&& d matches Dispatch::SolveEphemeral(o) && o.url@ == url@ && o.max_timeout_ms == t
                    && o.stealth == pre.stealth && opt_view(o.proxy) == opt_view(pre.proxy)
                    && opt_view(o.user_agent) == opt_view(pre.user_agent)
                &&& post == m
            },
            Some(id) => if !m.contains_key(id@) {
                &&& d matches Dispatch::Respond(b) && is_err_response(b, not_found_message(id@))
                &&& post == m
            } else if m[id@].requests >= max {
                &&& d matches Dispatch::Respond(b) && is_err_response(
                    b,
                    exhausted_message(id@, max),
                )
                &&& post == m
            } else {
                &&& d matches Dispatch::SolveInSession { session_id, url: u, max_timeout_ms }
                    && session_id@ == id@ && u@ == url@ && max_timeout_ms == t
                &&& post == m.insert(id@, counted(m[id@]))
            },
        }
    }
}

/// Decides a `request.get`: rejects a missing or blank `url`; with a
/// session, counts the request against it (or rejects it) and solves in its
/// browser; without one, solves in a fresh browser.
pub fn plan_request_get<C, P>(state: &mut ServerState<C, P>, req: RequestBody) -> (d: Dispatch)
    ensures
        final(state).sessions.ids() == old(state).sessions.ids(),
        final(state).sessions.max_requests() == old(state).sessions.max_requests(),
        final(state).stealth == old(state).stealth,
        final(state).proxy == old(state).proxy,
        final(state).user_agent == old(state).user_agent,
        request_get_planned(req, *old(state), d, final(state).sessions@),
{
    let url = match req.url {
        Some(u) => {
            if is_blank_str(u.as_str()) {
                return Dispatch::Respond(err_literal("url is required"));
            }
            u
        },
        None => {
            return Dispatch::Respond(err_literal("url is required"));
        },
    };
    let max_timeout_ms = effective_timeout(req.max_timeout);
    match req.session {
        Some(session_id) => {
            match state.sessions.touch(session_id.as_str()) {
                Err(e) => Dispatch::Respond(ResponseBody::err(e)),
                Ok(()) => Dispatch::SolveInSession { session_id, url, max_timeout_ms },
            }
        },
        None => Dispatch::SolveEphemeral(
            SolveOptions {
                url,
                max_timeout_ms,
                proxy: copy_opt(&state.proxy),
                stealth: state.stealth,
                user_agent: copy_opt(&state.user_agent),
            },
        ),
    }
}

/// Decides the answer to a request body: `request` is the parsed body, or
/// the parser's error text. Session commands are carried out here;
/// `make_browser` builds a new session's browser from its spec.
pub fn dispatch<C, P, F: FnOnce(BrowserSpec) -> (C, P)>(
    state: &mut ServerState<C, P>,
    request: Result<RequestBody, String>,
    make_browser: F,
) -> (d: Dispatch)
    requires
        forall|b: BrowserSpec| make_browser.requires((b,)),
    ensures
        final(state).sessions.max_requests() == old(state).sessions.max_requests(),
        final(state).stealth == old(state).stealth,
        final(state).proxy == old(state).proxy,
        final(state).user_agent == old(state).user_agent,
        match request {
            Err(e) => {
                &&& d matches Dispatch::Respond(b) && is_err_response(b, "Invalid JSON: "@ + e@)
                &&& final(state).sessions@ == old(state).sessions@
            },
            Ok(req) => {
                let cmd = req.cmd@;
                let m = old(state).sessions@;
                if cmd == "sessions.create"@ {
                    d matches Dispatch::Respond(b) && session_created(
                        b,
                        *old(state),
                        final(state).sessions@,
                        make_browser,
                    )
                } else if cmd == "sessions.destroy"@ {
                    match req.session {
                        None => d matches Dispatch::Respond(b) && is_err_response(
                            b,
                            "session id required"@,
                        ) && final(state).sessions@ == m,
                        Some(id) => if m.contains_key(id@) {
                            &&& d matches Dispatch::Respond(b) && is_ok_response(
                                b,
                                "Session destroyed"@,
                            ) && opt_view(b.session) == Some(id@)
                            &&& final(state).sessions@ == m.remove(id@)
                        } else {
                            &&& d matches Dispatch::Respond(b) && is_err_response(
                                b,
                                not_found_message(id@),
                            )
                            &&& final(state).sessions@ == m
                        },
                    }
                } else if cmd == "sessions.list"@ {
                    &&& d matches Dispatch::Respond(b) && is_ok_response(
                        b,
                        debug_list_text(old(state).sessions.ids()),
                    ) && b.session is None
                    &&& final(state).sessions@ == m
                } else if cmd == "request.get"@ {
                    request_get_planned(req, *old(state), d, final(state).sessions@)
                } else if cmd == "request.post"@ {
                    &&& d matches Dispatch::Respond(b) && is_err_response(
                        b,
                        "request.post is not implemented yet"@,
                    )
                    &&& final(state).sessions@ == m
                } else {
                    &&& d matches Dispatch::Respond(b) && is_err_response(
                        b,
                        "Unknown command: "@ + cmd,
                    )
                    &&& final(state).sessions@ == m
                }
            },
        },
{
    let req = match request {
        Err(e) => return Dispatch::Respond(err_text("Invalid JSON: ", e.as_str())),
        Ok(r) => r,
    };
    let cmd = req.cmd.as_str();
    if str_eq(cmd, "sessions.create") {
        let proxy = copy_opt(&state.proxy);
        let user_agent = copy_opt(&state.user_agent);
        let id = state.sessions.create(proxy, state.stealth, user_agent, make_browser);
        Dispatch::Respond(ResponseBody::ok(copy_str("Session created"), Some(id), None))
    } else if str_eq(cmd, "sessions.destroy") {
        match req.session {
            None => Dispatch::Respond(err_literal("session id required")),
            Some(session_id) => {
                if state.sessions.destroy(session_id.as_str()) {
                    Dispatch::Respond(
                        ResponseBody::ok(copy_str("Session destroyed"), Some(session_id), None),
                    )
                } else {
                    Dispatch::Respond(err_text("Session not found: ", session_id.as_str()))
                }
            },
        }
    } else if str_eq(cmd, "sessions.list") {
        let ids = state.sessions.list();
        proof {
            assert(ids@.map_values(|x: String| x@) =~= state.sessions.ids());
        }
        Dispatch::Respond(ResponseBody::ok(debug_list(&ids), None, None))
    } else if str_eq(cmd, "request.get") {
        plan_request_get(state, req)
    } else if str_eq(cmd, "request.post") {
        Dispatch::Respond(err_literal("request.post is not implemented yet"))
    } else {
        Dispatch::Respond(err_text("Unknown command: ", cmd))
    }
}

} // verus!
