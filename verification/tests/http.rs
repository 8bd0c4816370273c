use obscura_solverr::api::{RequestBody, ResponseBody};
use obscura_solverr::http::{
    debug_list, dispatch, effective_timeout, plan_request_get, solve_response,
    solver_env_defaults, Dispatch, ServerConfig, ServerState,
};
use obscura_solverr::session::BrowserSpec;
use obscura_solverr::solve::finish_solve;

fn config(max: u32) -> ServerConfig {
    ServerConfig {
        host: "0.0.0.0".to_string(),
        port: 8191,
        stealth: true,
        proxy: Some("socks5://p:1".to_string()),
        user_agent: None,
        max_requests_per_session: max,
    }
}

fn req(cmd: &str, url: Option<&str>, session: Option<&str>, max_timeout: Option<u64>) -> RequestBody {
    RequestBody {
        cmd: cmd.to_string(),
        url: url.map(|s| s.to_string()),
        session: session.map(|s| s.to_string()),
        max_timeout,
        post_data: None,
        extra: serde_json::Value::Null,
    }
}

fn respond(d: Dispatch) -> ResponseBody {
    match d {
        Dispatch::Respond(b) => b,
        _ => panic!("expected a response"),
    }
}

fn unit(_: BrowserSpec) -> ((), ()) {
    ((), ())
}

#[test]
fn env_defaults_only_for_unset_variables() {
    assert_eq!(
        solver_env_defaults(false, false, false),
        vec![
            ("OBSCURA_SCRIPT_DEADLINE_MS", "120000"),
            ("OBSCURA_NAV_TIMEOUT_MS", "130000"),
            ("OBSCURA_FETCH_TIMEOUT_MS", "120000"),
        ]
    );
    assert_eq!(
        solver_env_defaults(true, false, true),
        vec![("OBSCURA_NAV_TIMEOUT_MS", "130000")]
    );
    assert!(solver_env_defaults(true, true, true).is_empty());
}

fn apply(env: &mut std::collections::HashMap<String, String>) {
    let pairs = solver_env_defaults(
        env.contains_key("OBSCURA_SCRIPT_DEADLINE_MS"),
        env.contains_key("OBSCURA_NAV_TIMEOUT_MS"),
        env.contains_key("OBSCURA_FETCH_TIMEOUT_MS"),
    );
    for (k, v) in pairs {
        env.insert(k.to_string(), v.to_string());
    }
}

#[test]
fn env_defaults_are_idempotent() {
    let mut env = std::collections::HashMap::new();
    env.insert("OBSCURA_NAV_TIMEOUT_MS".to_string(), "5".to_string());
    apply(&mut env);
    let once = env.clone();
    apply(&mut env);
    assert_eq!(env, once);
    assert_eq!(env["OBSCURA_NAV_TIMEOUT_MS"], "5");
    assert_eq!(env["OBSCURA_SCRIPT_DEADLINE_MS"], "120000");
    assert_eq!(env["OBSCURA_FETCH_TIMEOUT_MS"], "120000");
}

#[test]
fn timeout_is_clamped() {
    assert_eq!(effective_timeout(None), 120000);
    assert_eq!(effective_timeout(Some(1)), 1);
    assert_eq!(effective_timeout(Some(999)), 999);
    assert_eq!(effective_timeout(Some(0)), 1);
    assert_eq!(effective_timeout(Some(45000)), 45000);
    assert_eq!(effective_timeout(Some(300001)), 300000);
    assert_eq!(effective_timeout(Some(u64::MAX)), 300000);
}

#[test]
fn invalid_json_is_reported() {
    let mut st: ServerState<(), ()> = ServerState::new(&config(25));
    let b = respond(dispatch(&mut st, Err("expected value at line 1".to_string()), unit));
    assert_eq!(b.status, "error");
    assert_eq!(b.message.as_deref(), Some("Invalid JSON: expected value at line 1"));
    assert!(b.session.is_none() && b.solution.is_none());
}

#[test]
fn created_session_browser_uses_server_settings() {
    let mut st: ServerState<String, (Option<String>, bool, Option<String>)> =
        ServerState::new(&config(25));
    let b = respond(dispatch(&mut st, Ok(req("sessions.create", None, None, None)), |b: BrowserSpec| {
        (b.context_name, (b.proxy, b.stealth, b.user_agent))
    }));
    let id = b.session.unwrap();
    let s = st.sessions.get_mut(&id).unwrap();
    assert_eq!(s.context, format!("solverr-{id}"));
    assert_eq!(s.page, (Some("socks5://p:1".to_string()), true, None));
}

#[test]
fn session_commands() {
    let mut st: ServerState<(), ()> = ServerState::new(&config(25));
    let b = respond(dispatch(&mut st, Ok(req("sessions.create", None, None, None)), unit));
    assert_eq!(b.status, "ok");
    assert_eq!(b.message.as_deref(), Some("Session created"));
    let id = b.session.unwrap();

    let b = respond(dispatch(&mut st, Ok(req("sessions.list", None, None, None)), unit));
    assert_eq!(b.message.unwrap(), format!("{:?}", vec![id.clone()]));

    let b = respond(dispatch(&mut st, Ok(req("sessions.destroy", None, None, None)), unit));
    assert_eq!(b.status, "error");
    assert_eq!(b.message.as_deref(), Some("session id required"));

    let b = respond(dispatch(&mut st, Ok(req("sessions.destroy", None, Some(&id), None)), unit));
    assert_eq!(b.status, "ok");
    assert_eq!(b.message.as_deref(), Some("Session destroyed"));
    assert_eq!(b.session.as_deref(), Some(id.as_str()));

    let b = respond(dispatch(&mut st, Ok(req("sessions.destroy", None, Some(&id), None)), unit));
    assert_eq!(b.status, "error");
    assert_eq!(b.message.unwrap(), format!("Session not found: {id}"));

    let b = respond(dispatch(&mut st, Ok(req("sessions.list", None, None, None)), unit));
    assert_eq!(b.message.as_deref(), Some("[]"));
}

#[test]
fn list_prints_like_debug() {
    let mut st: ServerState<(), ()> = ServerState::new(&config(25));
    for _ in 0..3 {
        dispatch(&mut st, Ok(req("sessions.create", None, None, None)), unit);
    }
    let ids = st.sessions.list();
    assert_eq!(debug_list(&ids), format!("{ids:?}"));
    assert_eq!(debug_list(&vec![]), "[]");
    assert_eq!(
        debug_list(&vec!["a".to_string(), "b".to_string()]),
        "[\"a\", \"b\"]"
    );
}

#[test]
fn other_commands() {
    let mut st: ServerState<(), ()> = ServerState::new(&config(25));
    let b = respond(dispatch(&mut st, Ok(req("request.post", None, None, None)), unit));
    assert_eq!(b.message.as_deref(), Some("request.post is not implemented yet"));
    let b = respond(dispatch(&mut st, Ok(req("bogus", None, None, None)), unit));
    assert_eq!(b.status, "error");
    assert_eq!(b.message.as_deref(), Some("Unknown command: bogus"));
}

#[test]
fn request_get_needs_url() {
    let mut st: ServerState<(), ()> = ServerState::new(&config(25));
    let b = respond(dispatch(&mut st, Ok(req("request.get", None, None, None)), unit));
    assert_eq!(b.message.as_deref(), Some("url is required"));
    let b = respond(plan_request_get(&mut st, req("request.get", Some(" \t\u{3000}"), None, None)));
    assert_eq!(b.message.as_deref(), Some("url is required"));
}

#[test]
fn request_get_without_session_is_ephemeral() {
    let mut st: ServerState<(), ()> = ServerState::new(&config(25));
    match dispatch(&mut st, Ok(req("request.get", Some("https://e.com"), None, Some(500))), unit) {
        Dispatch::SolveEphemeral(o) => {
            assert_eq!(o.url, "https://e.com");
            assert_eq!(o.max_timeout_ms, 500);
            assert!(o.stealth);
            assert_eq!(o.proxy.as_deref(), Some("socks5://p:1"));
            assert!(o.user_agent.is_none());
        }
        _ => panic!("expected an ephemeral solve"),
    }
}

#[test]
fn request_get_in_session_counts_requests() {
    let mut st: ServerState<(), ()> = ServerState::new(&config(1));
    let id = respond(dispatch(&mut st, Ok(req("sessions.create", None, None, None)), unit))
        .session
        .unwrap();
    match dispatch(&mut st, Ok(req("request.get", Some("https://e.com"), Some(&id), None)), unit) {
        Dispatch::SolveInSession { session_id, url, max_timeout_ms } => {
            assert_eq!(session_id, id);
            assert_eq!(url, "https://e.com");
            assert_eq!(max_timeout_ms, 120000);
        }
        _ => panic!("expected a session solve"),
    }
    let b = respond(dispatch(
        &mut st,
        Ok(req("request.get", Some("https://e.com"), Some(&id), None)),
        unit,
    ));
    assert_eq!(b.message.unwrap(), format!("Session {id} exceeded max requests (1)"));
    let b = respond(dispatch(
        &mut st,
        Ok(req("request.get", Some("https://e.com"), Some("missing"), None)),
        unit,
    ));
    assert_eq!(b.message.as_deref(), Some("Session not found: missing"));
}

#[test]
fn solve_outcomes_become_responses() {
    let res = finish_solve(false, "u".to_string(), "h".to_string(), "a".to_string(), &[]);
    let b = solve_response(Ok(res), Some("sid".to_string()));
    assert_eq!(b.status, "ok");
    assert_eq!(b.message.as_deref(), Some("Challenge not detected!"));
    assert_eq!(b.session.as_deref(), Some("sid"));
    assert_eq!(b.solution.unwrap().response, "h");
    let b = solve_response(Err("boom".to_string()), Some("sid".to_string()));
    assert_eq!(b.status, "error");
    assert_eq!(b.message.as_deref(), Some("boom"));
    assert!(b.session.is_none() && b.solution.is_none());
}

#[test]
fn ok_and_err_shapes() {
    let b = ResponseBody::ok("m".to_string(), None, None);
    assert_eq!(b.status, "ok");
    let e = ResponseBody::err("x".to_string());
    assert_eq!(e.status, "error");
    assert_eq!(e.message.as_deref(), Some("x"));
}
