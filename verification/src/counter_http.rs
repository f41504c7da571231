//! The HTTP counter client of the SDK: the requests it sends to the BFF's
//! counter endpoints, and what it makes of the replies.
//!
//! Sending a request is outside work: the caller sends the request that
//! this module describes and hands the reply back as a `CounterReply`.
use vstd::prelude::*;

use crate::gate::string_views;
use crate::numtext::{decimal, push_decimal};
use crate::text::{chars_of, has_prefix, push_str, string_of};

verus! {

/// Errors of counter operations.
#[derive(Debug, Clone)]
pub enum CounterError {
    NotFound(String),
    Database(String),
}

/// A counter, named by its tenant.
#[derive(Debug, Clone)]
pub struct CounterId {
    pub id: String,
}

impl CounterId {
    /// A counter id.
    pub fn new(id: &str) -> (r: Self)
        ensures
            r.id@ == id@,
    {
        CounterId { id: id.to_string() }
    }

    /// The id's text.
    pub fn as_str(&self) -> (r: &str)
        ensures
            r@ == self.id@,
    {
        self.id.as_str()
    }
}

/// `s` without its trailing `/`s.
pub open spec fn trim_slashes(s: Seq<char>) -> Seq<char>
    decreases s.len(),
{
    if s.len() > 0 && s.last() == '/' {
        trim_slashes(s.drop_last())
    } else {
        s
    }
}

/// A client of the BFF's counter endpoints.
#[derive(Debug, Clone)]
pub struct CounterHttpClient {
    pub base_url: String,
    pub auth_token: String,
}

/// The operations of the counter service.
#[derive(Debug, Clone, Copy, PartialEq, Eq, Structural)]
pub enum CounterOp {
    GetValue,
    Increment,
    Decrement,
    Reset,
}

/// The endpoint path of an operation.
pub open spec fn op_path(op: CounterOp) -> Seq<char> {
    match op {
        CounterOp::GetValue => "/api/counter/value"@,
        CounterOp::Increment => "/api/counter/increment"@,
        CounterOp::Decrement => "/api/counter/decrement"@,
        CounterOp::Reset => "/api/counter/reset"@,
    }
}

/// Each operation has its own endpoint, under `/api/counter/` and named
/// after it: no two operations share a path, so a request for one operation
/// never reaches another's endpoint.
pub proof fn law_op_paths_distinct(a: CounterOp, b: CounterOp)
    ensures
        a != b ==> op_path(a) != op_path(b),
        has_prefix(op_path(a), "/api/counter/"@),
        op_path(CounterOp::GetValue) == "/api/counter/value"@,
        op_path(CounterOp::Increment) == "/api/counter/increment"@,
        op_path(CounterOp::Decrement) == "/api/counter/decrement"@,
        op_path(CounterOp::Reset) == "/api/counter/reset"@,
{
    reveal_strlit("/api/counter/value");
    reveal_strlit("/api/counter/increment");
    reveal_strlit("/api/counter/decrement");
    reveal_strlit("/api/counter/reset");
    reveal_strlit("/api/counter/");
    assert(op_path(a).subrange(0, 13) =~= "/api/counter/"@);
    if a != b {
        if op_path(a) == op_path(b) {
            assert(op_path(a)[13] == op_path(b)[13]);
            assert(op_path(a).len() == op_path(b).len());
        }
    }
}

/// HTTP methods the client uses.
#[derive(Debug, Clone, Copy, PartialEq, Eq, Structural)]
pub enum Method {
    Get,
    Post,
}

/// A request to send.
#[derive(Debug, Clone)]
pub struct CounterRequest {
    pub method: Method,
    pub url: String,
    pub headers: Vec<(String, String)>,
}

/// Headers as plain values.
pub open spec fn header_views(h: Seq<(String, String)>) -> Seq<(Seq<char>, Seq<char>)> {
    h.map_values(|e: (String, String)| (e.0@, e.1@))
}

impl CounterHttpClient {
    /// A client for the BFF at `base_url` (trailing `/`s dropped) that
    /// authenticates with the bearer token `auth_token`.
    pub fn new(base_url: &str, auth_token: &str) -> (r: Self)
        ensures
            r.base_url@ == trim_slashes(base_url@),
            r.auth_token@ == auth_token@,
    {
        let b = chars_of(base_url);
        let mut n: usize = b.len();
        assert(b@.take(n as int) =~= b@);
        while n > 0 && b[n - 1] == '/'
            invariant
                n <= b@.len(),
                trim_slashes(b@.take(n as int)) == trim_slashes(b@),
            decreases n,
        {
            proof {
                assert(b@.take(n as int).drop_last() =~= b@.take(n - 1));
            }
            n = n - 1;
        }
        let t = crate::text::slice(&b, 0, n);
        assert(t@ =~= b@.take(n as int));
        CounterHttpClient { base_url: string_of(&t), auth_token: auth_token.to_string() }
    }

    /// The URL of an endpoint path.
    pub fn url(&self, path: &str) -> (r: String)
        ensures
            r@ == self.base_url@ + path@,
    {
        let mut v = chars_of(self.base_url.as_str());
        push_str(&mut v, path);
        string_of(&v)
    }

    /// The `Authorization` header value: `Bearer <token>`.
    pub fn auth_header_value(&self) -> (r: String)
        ensures
            r@ == "Bearer "@ + self.auth_token@,
    {
        let mut v = chars_of("Bearer ");
        push_str(&mut v, self.auth_token.as_str());
        string_of(&v)
    }

    /// The request of an operation on a counter: `GET` for the value, `POST`
    /// otherwise, with the bearer token, the tenant, and the idempotency key
    /// where one is given (never for reading the value).
    pub fn request(&self, op: CounterOp, counter_id: &CounterId, idempotency_key: Option<&str>) -> (r: CounterRequest)
        ensures
            r.method == (if op == CounterOp::GetValue { Method::Get } else { Method::Post }),
            r.url@ == self.base_url@ + op_path(op),
            header_views(r.headers@) == seq![
                ("Authorization"@, "Bearer "@ + self.auth_token@),
                ("X-Tenant-Id"@, counter_id.id@),
            ] + match idempotency_key {
                Some(k) => if op == CounterOp::GetValue {
                    Seq::<(Seq<char>, Seq<char>)>::empty()
                } else {
                    seq![("Idempotency-Key"@, k@)]
                },
                None => Seq::<(Seq<char>, Seq<char>)>::empty(),
            },
    {
        let path = match op {
            CounterOp::GetValue => "/api/counter/value",
            CounterOp::Increment => "/api/counter/increment",
            CounterOp::Decrement => "/api/counter/decrement",
            CounterOp::Reset => "/api/counter/reset",
        };
        let mut headers: Vec<(String, String)> = Vec::new();
        headers.push(("Authorization".to_string(), self.auth_header_value()));
        headers.push(("X-Tenant-Id".to_string(), counter_id.id.clone()));
        let ghost two = header_views(headers@);
        match idempotency_key {
            Some(k) => {
                if op != CounterOp::GetValue {
                    headers.push(("Idempotency-Key".to_string(), k.to_string()));
                }
            },
            None => {},
        }
        let method = if op == CounterOp::GetValue { Method::Get } else { Method::Post };
        let r = CounterRequest { method, url: self.url(path), headers };
        assert(header_views(r.headers@) =~= seq![
            ("Authorization"@, "Bearer "@ + self.auth_token@),
            ("X-Tenant-Id"@, counter_id.id@),
        ] + match idempotency_key {
            Some(k) => if op == CounterOp::GetValue {
                Seq::<(Seq<char>, Seq<char>)>::empty()
            } else {
                seq![("Idempotency-Key"@, k@)]
            },
            None => Seq::<(Seq<char>, Seq<char>)>::empty(),
        });
        r
    }
}

/// What came back for a request: the status code, the body's `error` text
/// (where the body is JSON with a string `error`), and the body's `value`
/// (or why it could not be read).
#[derive(Debug)]
pub struct CounterReply {
    pub status: u16,
    pub error_message: Option<String>,
    pub value: Result<i64, String>,
}

/// A success status: 200 to 299.
pub open spec fn success_status(status: u16) -> bool {
    200 <= status <= 299
}

/// What a reply means: the counter's value, or an error.
pub open spec fn reply_outcome(r: CounterReply) -> Result<i64, (bool, Seq<char>)> {
    if r.status == 404 {
        Err((true, match r.error_message { Some(m) => m@, None => "Counter not found"@ }))
    } else if !success_status(r.status) {
        Err((false, "HTTP "@ + decimal(r.status as nat) + ": "@ + match r.error_message {
            Some(m) => m@,
            None => "Unknown error"@,
        }))
    } else {
        match r.value {
            Ok(v) => Ok(v),
            Err(e) => Err((false, "Failed to parse response: "@ + e@)),
        }
    }
}

/// What a reply means: a 404 is always "not found"; any other failure
/// status is a database error naming the status; a success yields the value
/// the body carries, or a database error when the body cannot be read.
pub proof fn law_reply_meaning(r: CounterReply)
    ensures
        r.status == 404 ==> reply_outcome(r) matches Err((true, _)),
        r.status != 404 && !(200 <= r.status <= 299) ==> (reply_outcome(r) matches Err((false, m))
            && has_prefix(m, "HTTP "@)),
        200 <= r.status <= 299 ==> match r.value {
            Ok(v) => reply_outcome(r) == Ok::<i64, (bool, Seq<char>)>(v),
            Err(e) => (reply_outcome(r) matches Err((false, m)) && m == "Failed to parse response: "@ + e@),
        },
{
    if r.status != 404 && !(200 <= r.status <= 299) {
        let m = "HTTP "@ + decimal(r.status as nat) + ": "@ + match r.error_message {
            Some(x) => x@,
            None => "Unknown error"@,
        };
        assert(m.subrange(0, ("HTTP "@).len() as int) =~= "HTTP "@);
    }
}

/// An error as plain values: whether it is `NotFound`, and its message.
pub open spec fn error_view(e: CounterError) -> (bool, Seq<char>) {
    match e {
        CounterError::NotFound(m) => (true, m@),
        CounterError::Database(m) => (false, m@),
    }
}

/// The counter value a reply carries, or the error it reports: `NotFound`
/// for 404, `Database` with the status for other failures and for a body
/// that cannot be read.
pub fn parse_counter_response(reply: &CounterReply) -> (r: Result<i64, CounterError>)
    ensures
        match (r, reply_outcome(*reply)) {
            (Ok(v), Ok(w)) => v == w,
            (Err(e), Err(f)) => error_view(e) == f,
            _ => false,
        },
{
    if reply.status == 404 {
        let m = match &reply.error_message {
            Some(m) => m.clone(),
            None => "Counter not found".to_string(),
        };
        return Err(CounterError::NotFound(m));
    }
    if !(200 <= reply.status && reply.status <= 299) {
        let mut v = chars_of("HTTP ");
        push_decimal(&mut v, reply.status as u64);
        push_str(&mut v, ": ");
        match &reply.error_message {
            Some(m) => push_str(&mut v, m.as_str()),
            None => push_str(&mut v, "Unknown error"),
        }
        return Err(CounterError::Database(string_of(&v)));
    }
    match &reply.value {
        Ok(x) => Ok(*x),
        Err(e) => {
            let mut v = chars_of("Failed to parse response: ");
            push_str(&mut v, e.as_str());
            Err(CounterError::Database(string_of(&v)))
        },
    }
}

/// The error for a request that could not be sent.
pub fn request_failed(cause: &str) -> (e: CounterError)
    ensures
        error_view(e) == (false, "HTTP request failed: "@ + cause@),
{
    let mut v = chars_of("HTTP request failed: ");
    push_str(&mut v, cause);
    CounterError::Database(string_of(&v))
}

} // verus!
