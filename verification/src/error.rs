//! The error every request can end in: a stable code, a message for people, and when to retry.
use vstd::prelude::*;

use crate::json::{member_views, obj_view, Json, JsonView, Member};
use crate::proximity::{header_views, headers_view, Header, Proximity};
use crate::text::{dec, has_prefix, show_u64};

verus! {

/// Stable, machine-readable error codes. Each has one wire string and one HTTP status.
#[derive(Debug, Clone, Copy, PartialEq, Eq, Structural)]
pub enum ErrorCode {
    /// Malformed or semantically invalid request.
    BadRequest,
    /// An event's timestamp is further in the past than the skew window allows.
    TsTooOld,
    /// An event's timestamp is further in the future than the skew window allows.
    TsTooNew,
    /// Missing or invalid credentials.
    Unauthorized,
    /// A correct secret whose time has run out.
    KeyExpired,
    /// Authenticated, but not permitted.
    Forbidden,
    /// The project behind the credential is switched off.
    ProjectDisabled,
    /// The referenced resource does not exist.
    NotFound,
    /// The request conflicts with current state.
    Conflict,
    /// No enrolled device could ever run the requested action.
    RelayUnroutable,
    /// A usage limit has been exceeded, or is being approached under throttling.
    RateLimited,
    /// The server is shedding load.
    Overloaded,
    /// The request outlived the server's deadline.
    Timeout,
    /// An unexpected server-side failure.
    Internal,
    /// The configured backend lacks the capability.
    Unsupported,
}

impl ErrorCode {
    /// The canonical HTTP status.
    pub open spec fn http(self) -> u16 {
        match self {
            ErrorCode::BadRequest | ErrorCode::TsTooOld | ErrorCode::TsTooNew => 400,
            ErrorCode::Unauthorized | ErrorCode::KeyExpired => 401,
            ErrorCode::Forbidden | ErrorCode::ProjectDisabled => 403,
            ErrorCode::NotFound => 404,
            ErrorCode::Conflict => 409,
            ErrorCode::RelayUnroutable => 422,
            ErrorCode::RateLimited => 429,
            ErrorCode::Internal => 500,
            ErrorCode::Unsupported => 501,
            ErrorCode::Overloaded => 503,
            ErrorCode::Timeout => 504,
        }
    }

    /// The wire string.
    pub open spec fn wire(self) -> Seq<char> {
        match self {
            ErrorCode::BadRequest => "bad_request"@,
            ErrorCode::TsTooOld => "ts_too_old"@,
            ErrorCode::TsTooNew => "ts_too_new"@,
            ErrorCode::Unauthorized => "unauthorized"@,
            ErrorCode::KeyExpired => "key_expired"@,
            ErrorCode::Forbidden => "forbidden"@,
            ErrorCode::ProjectDisabled => "project_disabled"@,
            ErrorCode::NotFound => "not_found"@,
            ErrorCode::Conflict => "conflict"@,
            ErrorCode::RelayUnroutable => "relay_unroutable"@,
            ErrorCode::RateLimited => "rate_limited"@,
            ErrorCode::Overloaded => "overloaded"@,
            ErrorCode::Timeout => "timeout"@,
            ErrorCode::Internal => "internal"@,
            ErrorCode::Unsupported => "unsupported"@,
        }
    }

    /// The canonical HTTP status for this code.
    pub fn status(self) -> (r: u16)
        ensures
            r == self.http(),
    {
        match self {
            ErrorCode::BadRequest | ErrorCode::TsTooOld | ErrorCode::TsTooNew => 400,
            ErrorCode::Unauthorized | ErrorCode::KeyExpired => 401,
            ErrorCode::Forbidden | ErrorCode::ProjectDisabled => 403,
            ErrorCode::NotFound => 404,
            ErrorCode::Conflict => 409,
            ErrorCode::RelayUnroutable => 422,
            ErrorCode::RateLimited => 429,
            ErrorCode::Internal => 500,
            ErrorCode::Unsupported => 501,
            ErrorCode::Overloaded => 503,
            ErrorCode::Timeout => 504,
        }
    }

    /// The stable wire string, such as `"not_found"`.
    pub fn as_str(self) -> (r: &'static str)
        ensures
            r@ == self.wire(),
    {
        match self {
            ErrorCode::BadRequest => "bad_request",
            ErrorCode::TsTooOld => "ts_too_old",
            ErrorCode::TsTooNew => "ts_too_new",
            ErrorCode::Unauthorized => "unauthorized",
            ErrorCode::KeyExpired => "key_expired",
            ErrorCode::Forbidden => "forbidden",
            ErrorCode::ProjectDisabled => "project_disabled",
            ErrorCode::NotFound => "not_found",
            ErrorCode::Conflict => "conflict",
            ErrorCode::RelayUnroutable => "relay_unroutable",
            ErrorCode::RateLimited => "rate_limited",
            ErrorCode::Overloaded => "overloaded",
            ErrorCode::Timeout => "timeout",
            ErrorCode::Internal => "internal",
            ErrorCode::Unsupported => "unsupported",
        }
    }
}

/// A client can tell any two codes apart by their wire strings.
pub proof fn wire_strings_are_distinct(a: ErrorCode, b: ErrorCode)
    requires
        a.wire() == b.wire(),
    ensures
        a == b,
{
    reveal_strlit("bad_request");
    reveal_strlit("ts_too_old");
    reveal_strlit("ts_too_new");
    reveal_strlit("unauthorized");
    reveal_strlit("key_expired");
    reveal_strlit("forbidden");
    reveal_strlit("project_disabled");
    reveal_strlit("not_found");
    reveal_strlit("conflict");
    reveal_strlit("relay_unroutable");
    reveal_strlit("rate_limited");
    reveal_strlit("overloaded");
    reveal_strlit("timeout");
    reveal_strlit("internal");
    reveal_strlit("unsupported");
    let x = a.wire();
    let y = b.wire();
    assert(x.len() == y.len());
    assert(x[0] == y[0] && x[1] == y[1] && x[2] == y[2] && x[3] == y[3] && x[6] == y[6] && x[7]
        == y[7]);
}

/// How a request failed.
#[derive(Debug)]
pub struct ApiError {
    pub code: ErrorCode,
    pub message: String,
    /// Seconds to advertise in a `Retry-After` header.
    pub retry_after: Option<u64>,
    /// The project's position against its caps, on a limit rejection.
    pub proximity: Option<Proximity>,
}

/// Whether `e` carries `code` and `message` and neither a wait nor a position.
pub open spec fn plain_error(e: ApiError, code: ErrorCode, message: Seq<char>) -> bool {
    e.code == code && e.message@ == message && e.retry_after is None && e.proximity is None
}

/// The body of a failure: its code and its message, under `error`.
pub open spec fn envelope(code: ErrorCode, message: Seq<char>) -> JsonView {
    JsonView::Obj(
        seq![
            (
                "error"@,
                JsonView::Obj(
                    seq![
                        ("code"@, JsonView::Str(code.wire())),
                        ("message"@, JsonView::Str(message)),
                    ],
                ),
            ),
        ],
    )
}

impl ApiError {
    /// An error with a code and a message.
    pub fn new(code: ErrorCode, m: &str) -> (r: ApiError)
        ensures
            plain_error(r, code, m@),
    {
        ApiError { code, message: m.to_owned(), retry_after: None, proximity: None }
    }

    /// Attaches the seconds to wait.
    pub fn retry_after(self, secs: Option<u64>) -> (r: ApiError)
        ensures
            r == (ApiError { retry_after: secs, ..self }),
    {
        ApiError {
            code: self.code,
            message: self.message,
            retry_after: secs,
            proximity: self.proximity,
        }
    }

    /// Attaches the project's position against its caps.
    pub fn proximity(self, p: Proximity) -> (r: ApiError)
        ensures
            r == (ApiError { proximity: Some(p), ..self }),
    {
        ApiError {
            code: self.code,
            message: self.message,
            retry_after: self.retry_after,
            proximity: Some(p),
        }
    }

    /// An unexpected server-side failure.
    pub fn internal(m: &str) -> (r: ApiError)
        ensures
            plain_error(r, ErrorCode::Internal, m@),
    {
        ApiError::new(ErrorCode::Internal, m)
    }

    /// A malformed or invalid request.
    pub fn bad_request(m: &str) -> (r: ApiError)
        ensures
            plain_error(r, ErrorCode::BadRequest, m@),
    {
        ApiError::new(ErrorCode::BadRequest, m)
    }

    /// Missing or invalid credentials.
    pub fn unauthorized(m: &str) -> (r: ApiError)
        ensures
            plain_error(r, ErrorCode::Unauthorized, m@),
    {
        ApiError::new(ErrorCode::Unauthorized, m)
    }

    /// A correct secret whose time has run out.
    pub fn key_expired(m: &str) -> (r: ApiError)
        ensures
            plain_error(r, ErrorCode::KeyExpired, m@),
    {
        ApiError::new(ErrorCode::KeyExpired, m)
    }

    /// Authenticated, but not permitted.
    pub fn forbidden(m: &str) -> (r: ApiError)
        ensures
            plain_error(r, ErrorCode::Forbidden, m@),
    {
        ApiError::new(ErrorCode::Forbidden, m)
    }

    /// The project is switched off.
    pub fn project_disabled(m: &str) -> (r: ApiError)
        ensures
            plain_error(r, ErrorCode::ProjectDisabled, m@),
    {
        ApiError::new(ErrorCode::ProjectDisabled, m)
    }

    /// The referenced resource does not exist.
    pub fn not_found(m: &str) -> (r: ApiError)
        ensures
            plain_error(r, ErrorCode::NotFound, m@),
    {
        ApiError::new(ErrorCode::NotFound, m)
    }

    /// The request conflicts with current state.
    pub fn conflict(m: &str) -> (r: ApiError)
        ensures
            plain_error(r, ErrorCode::Conflict, m@),
    {
        ApiError::new(ErrorCode::Conflict, m)
    }

    /// No device could run the action.
    pub fn relay_unroutable(m: &str) -> (r: ApiError)
        ensures
            plain_error(r, ErrorCode::RelayUnroutable, m@),
    {
        ApiError::new(ErrorCode::RelayUnroutable, m)
    }

    /// A usage limit has been exceeded.
    pub fn rate_limited(m: &str) -> (r: ApiError)
        ensures
            plain_error(r, ErrorCode::RateLimited, m@),
    {
        ApiError::new(ErrorCode::RateLimited, m)
    }

    /// Whether the backend lacks the capability altogether.
    pub fn is_unsupported(&self) -> (r: bool)
        ensures
            r == (self.code == ErrorCode::Unsupported),
    {
        self.code == ErrorCode::Unsupported
    }

    /// `code: message`, as a log line shows it.
    pub fn to_text(&self) -> (r: String)
        ensures
            r@ == self.code.wire() + ": "@ + self.message@,
    {
        let mut out = self.code.as_str().to_owned();
        out.append(": ");
        out.append(self.message.as_str());
        out
    }

    /// The body a failed request is answered with: the code and the message, under `error`.
    pub fn body(&self) -> (r: Json)
        ensures
            r@ == envelope(self.code, self.message@),
    {
        let mut inner: Vec<Member> = Vec::new();
        inner.push(
            Member { name: "code".to_owned(), value: Json::Str(self.code.as_str().to_owned()) },
        );
        inner.push(Member { name: "message".to_owned(), value: Json::Str(self.message.clone()) });
        let mut outer: Vec<Member> = Vec::new();
        let ghost error = envelope(self.code, self.message@)->Obj_0[0].1;
        proof {
            obj_view(inner);
            assert(member_views(inner@) =~= error->Obj_0);
        }
        outer.push(Member { name: "error".to_owned(), value: Json::Obj(inner) });
        proof {
            obj_view(outer);
            assert(member_views(outer@) =~= envelope(self.code, self.message@)->Obj_0);
        }
        Json::Obj(outer)
    }

    /// The headers a failed request is answered with: the project's position where it is known, and
    /// the wait where there is one.
    pub fn headers(&self) -> (r: Vec<Header>)
        ensures
            headers_view(r@) == (match self.proximity {
                Some(p) => header_views(p@),
                None => seq![],
            }) + (match self.retry_after {
                Some(n) => seq![("retry-after"@, dec(n as nat))],
                None => seq![],
            }),
    {
        let mut out: Vec<Header> = match &self.proximity {
            Some(p) => p.headers(),
            None => Vec::new(),
        };
        let ghost before = out@;
        assert(self.proximity is None ==> headers_view(before) =~= seq![]);
        if let Some(n) = self.retry_after {
            let h = Header { name: "retry-after".to_owned(), value: show_u64(n) };
            out.push(h);
            assert(headers_view(out@) =~= headers_view(before).push((h.name@, h.value@)));
        }
        out
    }

    /// What a store failure means to a client: a constraint violation is the client's conflict, a
    /// missing capability is unsupported, and everything else is an internal failure.
    pub fn from_store(e: &StoreFailure) -> (r: ApiError)
        ensures
            match *e {
                StoreFailure::Conflict(m) => plain_error(r, ErrorCode::Conflict, m@),
                StoreFailure::Unsupported(what) => plain_error(
                    r,
                    ErrorCode::Unsupported,
                    what@ + " is not supported by this store backend"@,
                ),
                StoreFailure::Other(m) => plain_error(r, ErrorCode::Internal, m@),
            },
    {
        match e {
            StoreFailure::Conflict(m) => ApiError::conflict(m.as_str()),
            StoreFailure::Unsupported(what) => {
                let mut m = what.clone();
                m.append(" is not supported by this store backend");
                ApiError::new(ErrorCode::Unsupported, m.as_str())
            },
            StoreFailure::Other(m) => ApiError::internal(m.as_str()),
        }
    }
}

/// What a store call can fail with.
#[derive(Debug)]
pub enum StoreFailure {
    /// A constraint was violated.
    Conflict(String),
    /// The backend has no such capability.
    Unsupported(String),
    /// Anything else, in the store's words.
    Other(String),
}

/// Building errors: the shape the constructors share.
pub open spec fn fails_with<T>(r: Result<T, ApiError>, code: ErrorCode, message: Seq<char>) -> bool {
    r is Err && plain_error(r->Err_0, code, message)
}

// ------------------------------------------------------------------ how failures are answered

/// Every code is answered with its own status and word.
pub proof fn every_code_has_its_status_and_word(c: ErrorCode, n: u16, w: &'static str)
    requires
        call_ensures(ErrorCode::status, (c,), n),
        call_ensures(ErrorCode::as_str, (c,), w),
    ensures
        n == 400 <==> c is BadRequest || c is TsTooOld || c is TsTooNew,
        n == 401 <==> c is Unauthorized || c is KeyExpired,
        n == 403 <==> c is Forbidden || c is ProjectDisabled,
        n == 404 <==> c is NotFound,
        n == 409 <==> c is Conflict,
        n == 422 <==> c is RelayUnroutable,
        n == 429 <==> c is RateLimited,
        n == 500 <==> c is Internal,
        n == 501 <==> c is Unsupported,
        n == 503 <==> c is Overloaded,
        n == 504 <==> c is Timeout,
        c is BadRequest ==> w@ == "bad_request"@,
        c is TsTooOld ==> w@ == "ts_too_old"@,
        c is TsTooNew ==> w@ == "ts_too_new"@,
        c is Unauthorized ==> w@ == "unauthorized"@,
        c is KeyExpired ==> w@ == "key_expired"@,
        c is Forbidden ==> w@ == "forbidden"@,
        c is ProjectDisabled ==> w@ == "project_disabled"@,
        c is NotFound ==> w@ == "not_found"@,
        c is Conflict ==> w@ == "conflict"@,
        c is RelayUnroutable ==> w@ == "relay_unroutable"@,
        c is RateLimited ==> w@ == "rate_limited"@,
        c is Overloaded ==> w@ == "overloaded"@,
        c is Timeout ==> w@ == "timeout"@,
        c is Internal ==> w@ == "internal"@,
        c is Unsupported ==> w@ == "unsupported"@,
{
}

/// A failure's body names its code and its message under `error`, each under its own name.
pub proof fn a_body_names_code_and_message(e: &ApiError, w: &'static str, r: Json)
    requires
        call_ensures(ApiError::body, (e,), r),
        call_ensures(ErrorCode::as_str, (e.code,), w),
    ensures
        crate::json::field(r@, "error"@) is Some,
        crate::json::field(crate::json::field(r@, "error"@)->0, "code"@) == Some(JsonView::Str(w@)),
        crate::json::field(crate::json::field(r@, "error"@)->0, "message"@) == Some(
            JsonView::Str(e.message@),
        ),
{
    reveal_strlit("code");
    reveal_strlit("message");
    assert("code"@.len() == 4 && "message"@.len() == 7);
    let o = envelope(e.code, e.message@)->Obj_0;
    crate::seqs::first_where_is(o, crate::json::named("error"@), 0);
    let i = o[0].1->Obj_0;
    crate::seqs::first_where_is(i, crate::json::named("code"@), 0);
    crate::seqs::first_where_is(i, crate::json::named("message"@), 1);
}

/// A wait goes out as `retry-after`, behind whatever is said of the project's position.
pub proof fn a_wait_is_advertised(e: &ApiError, r: Vec<Header>)
    requires
        call_ensures(ApiError::headers, (e,), r),
        e.retry_after is Some,
    ensures
        r@.len() > 0,
        r@.last().name@ == "retry-after"@,
        r@.last().value@ == dec(e.retry_after->0 as nat),
{
    let h = headers_view(r@);
    assert(h.len() == r@.len());
    assert(h[h.len() - 1] == ("retry-after"@, dec(e.retry_after->0 as nat)));
    assert(h[r@.len() - 1] == (r@.last().name@, r@.last().value@));
}

/// What the store fails with reaches the client as what it is: a violated constraint as a conflict, a
/// missing capability as unsupported, anything else as an internal failure, in the store's words.
pub proof fn a_store_failure_is_told_as_it_is(f: &StoreFailure, r: ApiError, u: bool)
    requires
        call_ensures(ApiError::from_store, (f,), r),
        call_ensures(ApiError::is_unsupported, (&r,), u),
    ensures
        r.code is Conflict <==> *f is Conflict,
        r.code is Unsupported <==> *f is Unsupported,
        r.code is Internal <==> *f is Other,
        u <==> *f is Unsupported,
        f matches StoreFailure::Conflict(m) ==> r.message@ == m@,
        f matches StoreFailure::Other(m) ==> r.message@ == m@,
        f matches StoreFailure::Unsupported(m) ==> has_prefix(r.message@, m@),
        r.retry_after is None && r.proximity is None,
{
    if let StoreFailure::Unsupported(m) = *f {
        assert(r.message@.take(m@.len() as int) =~= m@);
    }
}

/// Each kind of failure is built under its own code, and what is attached to one changes nothing else.
pub proof fn failures_are_built_under_their_codes(
    m: &str,
    a: ApiError,
    b: ApiError,
    c: ApiError,
    d: ApiError,
    e: ApiError,
    f: ApiError,
    g: ApiError,
    h: ApiError,
    i: ApiError,
    j: ApiError,
)
    requires
        call_ensures(ApiError::internal, (m,), a),
        call_ensures(ApiError::bad_request, (m,), b),
        call_ensures(ApiError::unauthorized, (m,), c),
        call_ensures(ApiError::key_expired, (m,), d),
        call_ensures(ApiError::forbidden, (m,), e),
        call_ensures(ApiError::project_disabled, (m,), f),
        call_ensures(ApiError::not_found, (m,), g),
        call_ensures(ApiError::conflict, (m,), h),
        call_ensures(ApiError::relay_unroutable, (m,), i),
        call_ensures(ApiError::rate_limited, (m,), j),
    ensures
        a.code is Internal && b.code is BadRequest && c.code is Unauthorized && d.code is KeyExpired,
        e.code is Forbidden && f.code is ProjectDisabled && g.code is NotFound && h.code is Conflict,
        i.code is RelayUnroutable && j.code is RateLimited,
        a.message@ == m@ && b.message@ == m@ && c.message@ == m@ && d.message@ == m@ && e.message@ == m@,
        f.message@ == m@ && g.message@ == m@ && h.message@ == m@ && i.message@ == m@ && j.message@ == m@,
        a.retry_after is None && b.retry_after is None && j.retry_after is None,
{
}

/// What is added to an error stands beside what it said: its code and its message stay, and neither
/// addition touches the other.
pub proof fn an_addition_leaves_the_error(
    e: ApiError,
    secs: Option<u64>,
    p: Proximity,
    r: ApiError,
    q: ApiError,
)
    requires
        call_ensures(ApiError::retry_after, (e, secs), r),
        call_ensures(ApiError::proximity, (e, p), q),
    ensures
        r.code == e.code && r.message == e.message && q.code == e.code && q.message == e.message,
        r.retry_after == secs && r.proximity == e.proximity,
        q.retry_after == e.retry_after && q.proximity == Some(p),
{
}

} // verus!
