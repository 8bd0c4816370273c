use obscura_solverr::wire::{
    content_length_of_lowered_text,
    header_content_length, health_response, on_line, parse_request_line, reason_phrase,
    response_head, route, ConnAction, ConnState, Route, MAX_BODY_BYTES,
};

#[test]
fn request_line_parts() {
    assert_eq!(
        parse_request_line("POST /v1 HTTP/1.1\r\n"),
        Some(("POST".to_string(), "/v1".to_string()))
    );
    assert_eq!(
        parse_request_line("  GET  /x y z\n"),
        Some(("GET".to_string(), "".to_string()))
    );
    assert_eq!(parse_request_line("GET /health"), None);
    assert_eq!(parse_request_line("\r\n"), None);
    assert_eq!(parse_request_line(""), None);
}

#[test]
fn content_length_headers() {
    assert_eq!(header_content_length("Content-Length: 42\r\n", None), Some(Some(42)));
    assert_eq!(header_content_length("CONTENT-LENGTH:+7\n", Some(1)), Some(Some(7)));
    assert_eq!(header_content_length("content-length: x\r\n", Some(3)), Some(None));
    assert_eq!(header_content_length("Host: a\r\n", Some(3)), Some(Some(3)));
    assert_eq!(header_content_length("\r\n", Some(3)), None);
    assert_eq!(header_content_length("\r\n\r\n", None), None);
    assert_eq!(header_content_length("", None), None);
    assert_eq!(
        header_content_length("Content-Length: 99999999999999999999999\r\n", None),
        Some(None)
    );
}

#[test]
fn connection_reads_a_request() {
    let (st, act) = on_line(ConnState::AwaitRequestLine, "POST /v1 HTTP/1.1\r\n");
    assert!(matches!(act, ConnAction::ReadLine));
    let (st, act) = on_line(st, "content-length: 10\r\n");
    assert!(matches!(act, ConnAction::ReadLine));
    let (st, act) = on_line(st, "\r\n");
    assert!(matches!(st, ConnState::AwaitRequestLine));
    match act {
        ConnAction::ReadBody { method, path, length } => {
            assert_eq!(method, "POST");
            assert_eq!(path, "/v1");
            assert_eq!(length, 10);
        }
        _ => panic!("expected a body read"),
    }
}

#[test]
fn connection_closes_and_aborts() {
    let (_, act) = on_line(ConnState::AwaitRequestLine, "");
    assert!(matches!(act, ConnAction::Close));
    let (st, _) = on_line(ConnState::AwaitRequestLine, "GET /health HTTP/1.1\r\n");
    let (_, act) = on_line(st, "\r\n");
    assert!(matches!(act, ConnAction::ReadBody { length: 0, .. }));
    let (st, _) = on_line(ConnState::AwaitRequestLine, "POST / HTTP/1.1\r\n");
    let big = format!("Content-Length: {}\r\n", MAX_BODY_BYTES + 1);
    let (st, _) = on_line(st, &big);
    match on_line(st, "\r\n").1 {
        ConnAction::Abort(m) => assert_eq!(m, "request body too large"),
        _ => panic!("expected abort"),
    }
}

#[test]
fn routes() {
    assert!(matches!(route("POST", "/"), Route::Command));
    assert!(matches!(route("POST", "/v1"), Route::Command));
    assert!(matches!(route("GET", "/health"), Route::Health));
    assert!(matches!(route("GET", "/v1"), Route::NotFound));
    assert!(matches!(route("post", "/v1"), Route::NotFound));
}

#[test]
fn heads_and_health() {
    assert_eq!(
        response_head(200, 17),
        "HTTP/1.1 200 OK\r\nContent-Type: application/json\r\nContent-Length: 17\r\nConnection: close\r\n\r\n"
    );
    assert_eq!(reason_phrase(404), "Not Found");
    assert_eq!(reason_phrase(500), "Error");
    let h = health_response();
    assert_eq!(h.status, "ok");
    assert_eq!(h.message.as_deref(), Some("ObscuraSolverr is ready"));
}

#[test]
fn content_length_roundtrip() {
    for n in [0usize, 9, 10, 4194304, usize::MAX] {
        let head = response_head(200, n);
        let line = head.lines().find(|l| l.starts_with("Content-Length")).unwrap();
        assert_eq!(header_content_length(&format!("{line}\r\n"), None), Some(Some(n)));
    }
}

#[test]
fn lowered_header_values() {
    assert_eq!(content_length_of_lowered_text("content-length:  12 ", None), Some(12));
    assert_eq!(content_length_of_lowered_text("content-length:", Some(4)), None);
    assert_eq!(content_length_of_lowered_text("Content-Length: 12", Some(4)), Some(4));
    assert_eq!(content_length_of_lowered_text("x-content-length: 1", Some(4)), Some(4));
}
