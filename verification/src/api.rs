//! The request and response bodies of the FlareSolverr-compatible API.
use vstd::prelude::*;

verus! {

/// A JSON value as `serde_json` holds it; carried through, never read.
#[verifier::external_type_specification]
#[verifier::external_body]
pub struct ExJsonValue(serde_json::Value);

/// A command sent to `POST /v1`.
pub struct RequestBody {
    pub cmd: String,
    pub url: Option<String>,
    pub session: Option<String>,
    /// `maxTimeout`, in milliseconds.
    pub max_timeout: Option<u64>,
    /// `postData`.
    pub post_data: Option<String>,
    /// Every other member of the request object.
    pub extra: serde_json::Value,
}

/// The answer to a command.
pub struct ResponseBody {
    /// `"ok"` or `"error"`.
    pub status: &'static str,
    pub message: Option<String>,
    pub session: Option<String>,
    pub solution: Option<Solution>,
}

/// What a solved page request returns.
pub struct Solution {
    pub url: String,
    pub status: u16,
    pub response: String,
    /// `userAgent`.
    pub user_agent: String,
    pub cookies: Vec<FlareCookie>,
}

/// A cookie in the shape the API reports it.
pub struct FlareCookie {
    pub name: String,
    pub value: String,
    pub domain: Option<String>,
    pub path: Option<String>,
}

/// A successful answer whose message is `message`.
pub open spec fn is_ok_response(r: ResponseBody, message: Seq<char>) -> bool {
    &&& r.status@ == "ok"@
    &&& r.message matches Some(m) && m@ == message
    &&& r.solution is None
}

/// A failed answer carrying `message` and nothing else.
pub open spec fn is_err_response(r: ResponseBody, message: Seq<char>) -> bool {
    &&& r.status@ == "error"@
    &&& r.message matches Some(m) && m@ == message
    &&& r.session is None
    &&& r.solution is None
}

impl ResponseBody {
    /// A successful answer.
    pub fn ok(message: String, session: Option<String>, solution: Option<Solution>) -> (r: Self)
        ensures
            r.status@ == "ok"@,
            r.message == Some(message),
            r.session == session,
            r.solution == solution,
    {
        ResponseBody { status: "ok", message: Some(message), session, solution }
    }

    /// A failed answer.
    pub fn err(message: String) -> (r: Self)
        ensures
            r.status@ == "error"@,
            r.message == Some(message),
            r.session is None,
            r.solution is None,
    {
        ResponseBody { status: "error", message: Some(message), session: None, solution: None }
    }
}

} // verus!
