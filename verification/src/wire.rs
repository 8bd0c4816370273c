//! HTTP/1.1 framing of the API: reading a request line by line, choosing
//! the handler, and the head of the response.
use vstd::prelude::*;

use crate::api::ResponseBody;
use vstd::utf8::is_ascii_chars;

use crate::text::{
    ascii_lowercase,
    append_str, chars_of, copy_str, decimal, has_prefix, parse_usize, parse_usize_spec,
    push_decimal, str_eq, to_lowercase, trim, trim_bounds, unicode_lowercase,
};

verus! {

/// The largest request body accepted, in bytes.
pub const MAX_BODY_BYTES: usize = 4194304;

/// Where a connection stands between two lines.
pub enum ConnState {
    /// Waiting for the request line of the next request.
    AwaitRequestLine,
    /// Reading the header lines of a request.
    ReadingHeaders { method: String, path: String, content_length: Option<usize> },
}

/// What the connection does next.
pub enum ConnAction {
    /// Close the connection.
    Close,
    /// Read the next line.
    ReadLine,
    /// Read a body of `length` bytes, then answer the request.
    ReadBody { method: String, path: String, length: usize },
    /// Drop the connection with this error.
    Abort(String),
}

/// Which handler answers a request.
pub enum Route {
    /// `POST /` or `POST /v1`: an API command.
    Command,
    /// `GET /health`.
    Health,
    /// Anything else: 404.
    NotFound,
}

/// `s[i]` is the first space of `s` at or after `from`.
pub open spec fn is_first_space(s: Seq<char>, from: int, i: int) -> bool {
    &&& 0 <= from <= i < s.len()
    &&& s[i] == ' '
    &&& forall|k: int| from <= k < i ==> s[k] != ' '
}

/// The first two spaces of `s` are at `i` and `j`.
pub open spec fn is_split(s: Seq<char>, i: int, j: int) -> bool {
    is_first_space(s, 0, i) && is_first_space(s, i + 1, j)
}

/// The method and path of a request line: the first two of the parts that
/// `line.trim().splitn(3, ' ')` gives, when it gives three.
pub open spec fn request_target(line: Seq<char>) -> Option<(Seq<char>, Seq<char>)> {
    let t = trim(line);
    if exists|i: int, j: int| is_split(t, i, j) {
        let (i, j) = choose|i: int, j: int| is_split(t, i, j);
        Some((t.subrange(0, i), t.subrange(i + 1, j)))
    } else {
        None
    }
}

/// `s` without any number of trailing `"\r\n"`.
pub open spec fn strip_crlf(s: Seq<char>) -> Seq<char>
    decreases s.len(),
{
    if s.len() >= 2 && s[s.len() - 2] == '\r' && s[s.len() - 1] == '\n' {
        strip_crlf(s.subrange(0, s.len() - 2))
    } else {
        s
    }
}

/// `s` without any number of trailing `'\n'`.
pub open spec fn strip_lf(s: Seq<char>) -> Seq<char>
    decreases s.len(),
{
    if s.len() > 0 && s.last() == '\n' {
        strip_lf(s.drop_last())
    } else {
        s
    }
}

/// A header line without its line end, as
/// `line.trim_end_matches("\r\n").trim_end_matches('\n')` gives it.
pub open spec fn header_text(line: Seq<char>) -> Seq<char> {
    strip_lf(strip_crlf(line))
}

/// The content length after the non-empty header line text `h`: the parsed
/// value of a `content-length:` header (in any case), `None` where that value
/// does not parse, and `current` for other headers.
pub open spec fn content_length_after(h: Seq<char>, current: Option<usize>) -> Option<usize> {
    content_length_of_lowered(unicode_lowercase(h), current)
}

/// The content length after a header line whose lowercased text is
/// `lower`, given the content length so far.
pub open spec fn content_length_of_lowered(lower: Seq<char>, current: Option<usize>) -> Option<
    usize,
> {
    if has_prefix(lower, "content-length:"@) {
        parse_usize_spec(trim(lower.subrange("content-length:"@.len() as int, lower.len() as int)))
    } else {
        current
    }
}

/// The handler for a request with method `m` and path `p`.
pub open spec fn route_of(m: Seq<char>, p: Seq<char>) -> Route {
    if m == "POST"@ && (p == "/"@ || p == "/v1"@) {
        Route::Command
    } else if m == "GET"@ && p == "/health"@ {
        Route::Health
    } else {
        Route::NotFound
    }
}

/// The reason phrase for a status code.
pub open spec fn reason_text(status: u16) -> Seq<char> {
    if status == 200 {
        "OK"@
    } else if status == 404 {
        "Not Found"@
    } else {
        "Error"@
    }
}

/// The head of a response with status `status` and a JSON body of `len`
/// bytes, ending in the blank line.
pub open spec fn response_head_text(status: u16, len: usize) -> Seq<char> {
    "HTTP/1.1 "@ + decimal(status as nat) + " "@ + reason_text(status)
        + "\r\nContent-Type: application/json\r\nContent-Length: "@ + decimal(len as nat)
        + "\r\nConnection: close\r\n\r\n"@
}

/// Strips every trailing `"\r\n"` of `v[0..n]`.
fn strip_crlf_len(v: &Vec<char>, n: usize) -> (r: usize)
    requires
        n <= v.len(),
    ensures
        r <= n,
        strip_crlf(v@.subrange(0, n as int)) == v@.subrange(0, r as int),
    decreases n,
{
    if n >= 2 && v[n - 2] == '\r' && v[n - 1] == '\n' {
        proof {
            let s = v@.subrange(0, n as int);
            assert(s.subrange(0, s.len() - 2) =~= v@.subrange(0, n - 2));
        }
        strip_crlf_len(v, n - 2)
    } else {
        n
    }
}

/// Strips every trailing `'\n'` of `v[0..n]`.
fn strip_lf_len(v: &Vec<char>, n: usize) -> (r: usize)
    requires
        n <= v.len(),
    ensures
        r <= n,
        strip_lf(v@.subrange(0, n as int)) == v@.subrange(0, r as int),
    decreases n,
{
    if n >= 1 && v[n - 1] == '\n' {
        proof {
            let s = v@.subrange(0, n as int);
            assert(s.drop_last() =~= v@.subrange(0, n - 1));
        }
        strip_lf_len(v, n - 1)
    } else {
        n
    }
}

/// The first space of `v[..to]` at or after `from`.
fn find_space(v: &Vec<char>, from: usize, to: usize) -> (r: Option<usize>)
    requires
        from <= to <= v.len(),
    ensures
        match r {
            Some(i) => from <= i < to && v@[i as int] == ' ' && forall|k: int|
                from <= k < i ==> v@[k] != ' ',
            None => forall|k: int| from <= k < to ==> v@[k] != ' ',
        },
{
    let mut i = from;
    while i < to
        invariant
            from <= i <= to <= v.len(),
            forall|k: int| from <= k < i ==> v@[k] != ' ',
        decreases to - i,
    {
        if v[i] == ' ' {
            return Some(i);
        }
        i = i + 1;
    }
    None
}

/// The method and path of a request line, if it has them.
pub fn parse_request_line(line: &str) -> (r: Option<(String, String)>)
    ensures
        match request_target(line@) {
            Some((m, p)) => r matches Some((rm, rp)) && rm@ == m && rp@ == p,
            None => r is None,
        },
{
    let v = chars_of(line);
    let (lo, hi) = trim_bounds(&v, 0, v.len());
    let ghost t = trim(line@);
    proof {
        assert(v@.subrange(0, v.len() as int) =~= v@);
    }
    match find_space(&v, lo, hi) {
        None => {
            proof {
                assert forall|i: int, j: int|
                    !is_split(t, i, j) by {
                    if 0 <= i < t.len() {
                        assert(t[i] == v@[lo + i]);
                    }
                }
            }
            None
        },
        Some(a) => match find_space(&v, a + 1, hi) {
            None => {
                proof {
                    assert forall|i: int, j: int|
                        !is_split(t, i, j) by {
                        if is_split(t, i, j) {
                            if i < a - lo {
                                assert(t[i] == v@[lo + i]);
                            }
                            if i > a - lo {
                                assert(t[a - lo] == v@[a as int]);
                            }
                            assert(t[j] == v@[lo + j]);
                        }
                    }
                }
                None
            },
            Some(b) => {
                proof {
                    let i0 = a - lo;
                    let j0 = b - lo;
                    assert(is_first_space(t, 0, i0)) by {
                        assert(t[i0] == v@[a as int]);
                        assert forall|k: int| 0 <= k < i0 implies t[k] != ' ' by {
                            assert(t[k] == v@[lo + k]);
                        }
                    }
                    assert(is_first_space(t, i0 + 1, j0)) by {
                        assert(t[j0] == v@[b as int]);
                        assert forall|k: int| i0 + 1 <= k < j0 implies t[k] != ' ' by {
                            assert(t[k] == v@[lo + k]);
                        }
                    }
                    assert(is_split(t, i0, j0));
                    let (i, j) = choose|i: int, j: int| is_split(t, i, j);
                    // the first spaces are unique
                    if i < i0 {
                        assert(t[i] == v@[lo + i]);
                    }
                    if i > i0 {
                        assert(t[i0] == ' ');
                    }
                    if j < j0 {
                        assert(t[j] == v@[lo + j]);
                    }
                    if j > j0 {
                        assert(t[j0] == ' ');
                    }
                    assert(t.subrange(0, i0) =~= v@.subrange(lo as int, a as int));
                    assert(t.subrange(i0 + 1, j0) =~= v@.subrange(a + 1, b as int));
                }
                let m = crate::text::string_of(&v, lo, a);
                let p = crate::text::string_of(&v, a + 1, b);
                Some((m, p))
            },
        },
    }
}

/// The content length after the header line `line` (with its line end) is
/// read, given the content length so far; `None` when the line ends the
/// headers.
pub fn header_content_length(line: &str, current: Option<usize>) -> (r: Option<Option<usize>>)
    ensures
        header_text(line@).len() == 0 ==> r is None,
        header_text(line@).len() > 0 ==> r == Some(
            content_length_after(header_text(line@), current),
        ),
        header_text(line@).len() > 0 && is_ascii_chars(header_text(line@)) ==> r == Some(
            content_length_of_lowered(ascii_lowercase(header_text(line@)), current),
        ),
        header_text(line@).len() > 0 && is_ascii_chars(header_text(line@)) && !has_prefix(
            ascii_lowercase(header_text(line@)),
            "content-length:"@,
        ) ==> r == Some(current),
{
    let v = chars_of(line);
    let n1 = strip_crlf_len(&v, v.len());
    let n2 = strip_lf_len(&v, n1);
    proof {
        assert(v@.subrange(0, v.len() as int) =~= v@);
        assert(v@.subrange(0, n1 as int).subrange(0, n2 as int) =~= v@.subrange(0, n2 as int));
        // strip_lf of a prefix taken from v
        assert(header_text(line@) == v@.subrange(0, n2 as int));
    }
    if n2 == 0 {
        return None;
    }
    let h = crate::text::string_of(&v, 0, n2);
    let lower = to_lowercase(h.as_str());
    Some(content_length_of_lowered_text(lower.as_str(), current))
}

/// The content length after a header line whose lowercased text (without
/// line end) is `lower`: the parsed value of a `content-length:` header,
/// `None` where it does not parse, and `current` for other headers.
pub fn content_length_of_lowered_text(lower: &str, current: Option<usize>) -> (r: Option<usize>)
    ensures
        r == content_length_of_lowered(lower@, current),
        !has_prefix(lower@, "content-length:"@) ==> r == current,
        has_prefix(lower@, "content-length:"@) ==> r == parse_usize_spec(
            trim(lower@.subrange("content-length:"@.len() as int, lower@.len() as int)),
        ),
{
    let lv = chars_of(lower);
    let prefix = chars_of("content-length:");
    if lv.len() >= prefix.len() {
        let mut k: usize = 0;
        let mut same = true;
        while k < prefix.len()
            invariant
                lv.len() >= prefix.len(),
                k <= prefix.len(),
                same == forall|j: int| 0 <= j < k ==> lv@[j] == prefix@[j],
            decreases prefix.len() - k,
        {
            if lv[k] != prefix[k] {
                same = false;
            }
            k = k + 1;
        }
        proof {
            if same {
                assert(lv@.subrange(0, prefix.len() as int) =~= prefix@);
            } else {
                let j = choose|j: int| 0 <= j < prefix.len() && lv@[j] != prefix@[j];
                assert(lv@.subrange(0, prefix.len() as int)[j] == lv@[j]);
            }
        }
        if same {
            let (lo, hi) = trim_bounds(&lv, prefix.len(), lv.len());
            return parse_usize(&lv, lo, hi);
        }
    }
    current
}

/// The next state and action of a connection once `line` has been read in
/// state `state` (an empty line stands for the end of the stream).
pub fn on_line(state: ConnState, line: &str) -> (r: (ConnState, ConnAction))
    ensures
        state is AwaitRequestLine ==> match request_target(line@) {
            None => r.0 is AwaitRequestLine && r.1 is Close,
            Some((m, p)) => r.1 is ReadLine && (r.0 matches ConnState::ReadingHeaders {
                method,
                path,
                content_length,
            } && method@ == m && path@ == p && content_length is None),
        },
        state matches ConnState::ReadingHeaders { method, path, content_length } ==> {
            let h = header_text(line@);
            if h.len() > 0 {
                r.1 is ReadLine && (r.0 matches ConnState::ReadingHeaders {
                    method: m2,
                    path: p2,
                    content_length: c2,
                } && m2 == method && p2 == path && c2 == content_length_after(h, content_length))
            } else {
                &&& r.0 is AwaitRequestLine
                &&& match content_length {
                    None => r.1 matches ConnAction::ReadBody { method: m2, path: p2, length } && m2
                        == method && p2 == path && length == 0,
                    Some(n) => if n > MAX_BODY_BYTES {
                        r.1 matches ConnAction::Abort(e) && e@ == "request body too large"@
                    } else {
                        r.1 matches ConnAction::ReadBody { method: m2, path: p2, length } && m2
                            == method && p2 == path && length == n
                    },
                }
            }
        },
{
    match state {
        ConnState::AwaitRequestLine => match parse_request_line(line) {
            None => (ConnState::AwaitRequestLine, ConnAction::Close),
            Some((method, path)) => (
                ConnState::ReadingHeaders { method, path, content_length: None },
                ConnAction::ReadLine,
            ),
        },
        ConnState::ReadingHeaders { method, path, content_length } => {
            match header_content_length(line, content_length) {
                Some(c) => (
                    ConnState::ReadingHeaders { method, path, content_length: c },
                    ConnAction::ReadLine,
                ),
                None => match content_length {
                    None => (
                        ConnState::AwaitRequestLine,
                        ConnAction::ReadBody { method, path, length: 0 },
                    ),
                    Some(n) => if n > MAX_BODY_BYTES {
                        (
                            ConnState::AwaitRequestLine,
                            ConnAction::Abort(copy_str("request body too large")),
                        )
                    } else {
                        (ConnState::AwaitRequestLine, ConnAction::ReadBody { method, path, length: n })
                    },
                },
            }
        },
    }
}

/// The handler for a request with method `method` and path `path`.
pub fn route(method: &str, path: &str) -> (r: Route)
    ensures
        r == route_of(method@, path@),
{
    if str_eq(method, "POST") && (str_eq(path, "/") || str_eq(path, "/v1")) {
        Route::Command
    } else if str_eq(method, "GET") && str_eq(path, "/health") {
        Route::Health
    } else {
        Route::NotFound
    }
}

/// The answer to `GET /health`.
pub fn health_response() -> (r: ResponseBody)
    ensures
        r.status@ == "ok"@,
        r.message matches Some(m) && m@ == "ObscuraSolverr is ready"@,
        r.session is None,
        r.solution is None,
{
    ResponseBody::ok(copy_str("ObscuraSolverr is ready"), None, None)
}

/// The reason phrase for a status code.
pub fn reason_phrase(status: u16) -> (r: &'static str)
    ensures
        r@ == reason_text(status),
{
    if status == 200 {
        "OK"
    } else if status == 404 {
        "Not Found"
    } else {
        "Error"
    }
}

/// The head of a response with status `status` and a JSON body of
/// `body_len` bytes.
pub fn response_head(status: u16, body_len: usize) -> (head: String)
    ensures
        head@ == response_head_text(status, body_len),
        has_prefix(head@, "HTTP/1.1 "@ + decimal(status as nat) + " "@ + reason_text(status)),
        status == 200 ==> has_prefix(head@, "HTTP/1.1 "@ + decimal(200) + " "@ + "OK"@),
        status == 404 ==> has_prefix(head@, "HTTP/1.1 "@ + decimal(404) + " "@ + "Not Found"@),
{
    let mut h = copy_str("HTTP/1.1 ");
    push_decimal(&mut h, status as u64);
    append_str(&mut h, " ");
    append_str(&mut h, reason_phrase(status));
    let ghost line = h@;
    append_str(&mut h, "\r\nContent-Type: application/json\r\nContent-Length: ");
    push_decimal(&mut h, body_len as u64);
    append_str(&mut h, "\r\nConnection: close\r\n\r\n");
    proof {
        assert(h@.subrange(0, line.len() as int) =~= line);
        if status == 200 {
            assert(reason_text(status) == "OK"@);
        }
        if status == 404 {
            assert(reason_text(status) == "Not Found"@);
        }
    }
    h
}

} // verus!
