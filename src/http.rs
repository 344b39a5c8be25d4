//! The protocol vocabulary: methods, statuses with their codes, reason
//! phrases and classes, header names, and the header line itself.
use vstd::prelude::*;
use vstd::string::StrSliceExecFns;
use crate::text::{
    chars_of, decimal, is_ws, push_decimal, lemma_trim_after_prefix, lemma_trim_of_trim_end, trim, trim_end, trim_range,
};

verus! {

pub const HTTP_VERSION_1_0: &'static str = "HTTP/1.0";
pub const HTTP_VERSION_1_1: &'static str = "HTTP/1.1";

pub const HEADER_ACCEPT: &'static str = "Accept";
pub const HEADER_CONNECTION: &'static str = "Connection";
pub const HEADER_CONTENT_LENGTH: &'static str = "Content-Length";
pub const HEADER_CONTENT_TYPE: &'static str = "Content-Type";
pub const HEADER_DATE: &'static str = "Date";
pub const HEADER_HOST: &'static str = "Host";
pub const HEADER_SERVER: &'static str = "Server";
pub const HEADER_USER_AGENT: &'static str = "User-Agent";

pub const CONTENT_TYPE_TEXT_HTML: &'static str = "text/html";
pub const CONTENT_TYPE_TEXT_PLAIN: &'static str = "text/plain";
pub const CONTENT_TYPE_APPLICATION_JSON: &'static str = "application/json";
pub const CONTENT_TYPE_APPLICATION_OCTET_STREAM: &'static str = "application/octet-stream";

pub const CONNECTION_CLOSE: &'static str = "close";
pub const CONNECTION_KEEP_ALIVE: &'static str = "keep-alive";
pub const CONNECTION_UPGRADE: &'static str = "upgrade";

/// The request methods this server knows; `Brew` is a non-standard extension.
#[derive(Debug, Clone, Copy, PartialEq, Eq, Structural)]
pub enum Method {
    Get,
    Post,
    Put,
    Delete,
    Options,
    Head,
    Trace,
    Connect,
    Patch,
    Brew,
}
impl Method {
    /// The token that names the method on the wire.
    pub open spec fn token(self) -> Seq<char> {
        match self {
            Method::Get => "GET"@,
            Method::Post => "POST"@,
            Method::Put => "PUT"@,
            Method::Delete => "DELETE"@,
            Method::Options => "OPTIONS"@,
            Method::Head => "HEAD"@,
            Method::Trace => "TRACE"@,
            Method::Connect => "CONNECT"@,
            Method::Patch => "PATCH"@,
            Method::Brew => "BREW"@,
        }
    }

    /// The method whose token is exactly `s`, if any.
    pub open spec fn of_token(s: Seq<char>) -> Option<Method> {
        if s == "GET"@ {
            Some(Method::Get)
        } else if s == "POST"@ {
            Some(Method::Post)
        } else if s == "PUT"@ {
            Some(Method::Put)
        } else if s == "DELETE"@ {
            Some(Method::Delete)
        } else if s == "OPTIONS"@ {
            Some(Method::Options)
        } else if s == "HEAD"@ {
            Some(Method::Head)
        } else if s == "TRACE"@ {
            Some(Method::Trace)
        } else if s == "CONNECT"@ {
            Some(Method::Connect)
        } else if s == "PATCH"@ {
            Some(Method::Patch)
        } else if s == "BREW"@ {
            Some(Method::Brew)
        } else {
            None
        }
    }

    /// Reads a method token; the match is exact and case-sensitive.
    pub fn from_str(method: &str) -> (r: Option<Method>)
        ensures
            r == Method::of_token(method@),
    {
        let m = chars_of(method);
        if same_chars(&m, "GET") {
            Some(Method::Get)
        } else if same_chars(&m, "POST") {
            Some(Method::Post)
        } else if same_chars(&m, "PUT") {
            Some(Method::Put)
        } else if same_chars(&m, "DELETE") {
            Some(Method::Delete)
        } else if same_chars(&m, "OPTIONS") {
            Some(Method::Options)
        } else if same_chars(&m, "HEAD") {
            Some(Method::Head)
        } else if same_chars(&m, "TRACE") {
            Some(Method::Trace)
        } else if same_chars(&m, "CONNECT") {
            Some(Method::Connect)
        } else if same_chars(&m, "PATCH") {
            Some(Method::Patch)
        } else if same_chars(&m, "BREW") {
            Some(Method::Brew)
        } else {
            None
        }
    }

    /// The token that names the method on the wire.
    pub fn as_str(&self) -> (r: &'static str)
        ensures
            r@ == self.token(),
    {
        match self {
            Method::Get => "GET",
            Method::Post => "POST",
            Method::Put => "PUT",
            Method::Delete => "DELETE",
            Method::Options => "OPTIONS",
            Method::Head => "HEAD",
            Method::Trace => "TRACE",
            Method::Connect => "CONNECT",
            Method::Patch => "PATCH",
            Method::Brew => "BREW",
        }
    }
}

/// True when the characters of `a` are those of `b`.
fn same_chars(a: &Vec<char>, b: &str) -> (r: bool)
    ensures
        r == (a@ == b@),
{
    let bc = chars_of(b);
    if a.len() != bc.len() {
        return false;
    }
    let mut i: usize = 0;
    while i < a.len()
        invariant
            a@.len() == bc@.len(),
            bc@ == b@,
            i <= a@.len(),
            forall|k: int| 0 <= k < i ==> a@[k] == bc@[k],
        decreases a.len() - i,
    {
        if a[i] != bc[i] {
            return false;
        }
        i = i + 1;
    }
    assert(a@ =~= bc@);
    true
}

/// A response status: the registered codes, and any other code as `Custom`.
#[derive(Debug, Clone, Copy, PartialEq, Eq, Structural)]
pub enum Status {
    Continue,
    SwitchingProtocols,
    Processing,
    EarlyHints,
    #[allow(non_camel_case_types)]
    OK,
    Created,
    Accepted,
    NonAuthoritativeInformation,
    NoContent,
    ResetContent,
    PartialContent,
    MultiStatus,
    AlreadyReported,
    IMUsed,
    MultipleChoices,
    MovedPermanently,
    Found,
    SeeOther,
    NotModified,
    UseProxy,
    SwitchProxy,
    TemporaryRedirect,
    PermanentRedirect,
    BadRequest,
    Unauthorized,
    PaymentRequired,
    Forbidden,
    NotFound,
    MethodNotAllowed,
    NotAcceptable,
    ProxyAuthenticationRequired,
    RequestTimeout,
    Conflict,
    Gone,
    LengthRequired,
    PreconditionFailed,
    PayloadTooLarge,
    URITooLong,
    UnsupportedMediaType,
    RangeNotSatisfiable,
    ExpectationFailed,
    ImATeapot,
    MisdirectedRequest,
    UnprocessableEntity,
    Locked,
    FailedDependency,
    TooEarly,
    UpgradeRequired,
    PreconditionRequired,
    TooManyRequests,
    RequestHeaderFieldsTooLarge,
    UnavailableForLegalReasons,
    InternalServerError,
    NotImplemented,
    BadGateway,
    ServiceUnavailable,
    GatewayTimeout,
    HTTPVersionNotSupported,
    VariantAlsoNegotiates,
    InsufficientStorage,
    LoopDetected,
    NotExtended,
    NetworkAuthenticationRequired,
    Custom(u16),
}

/// The class of a status, from the hundreds digit of its code.
#[derive(Debug, Clone, Copy, PartialEq, Eq, Structural)]
pub enum StatusClass {
    Informational,
    Success,
    Redirection,
    ClientError,
    ServerError,
    Unknown,
}

/// The class of any numeric code.
pub open spec fn class_of_code(code: u16) -> StatusClass {
    if 100 <= code <= 199 {
        StatusClass::Informational
    } else if 200 <= code <= 299 {
        StatusClass::Success
    } else if 300 <= code <= 399 {
        StatusClass::Redirection
    } else if 400 <= code <= 499 {
        StatusClass::ClientError
    } else if 500 <= code <= 599 {
        StatusClass::ServerError
    } else {
        StatusClass::Unknown
    }
}

impl Status {
    /// The numeric code of the status.
    pub open spec fn code(self) -> u16 {
        match self {
            Status::Continue => 100,
            Status::SwitchingProtocols => 101,
            Status::Processing => 102,
            Status::EarlyHints => 103,
            Status::OK => 200,
            Status::Created => 201,
            Status::Accepted => 202,
            Status::NonAuthoritativeInformation => 203,
            Status::NoContent => 204,
            Status::ResetContent => 205,
            Status::PartialContent => 206,
            Status::MultiStatus => 207,
            Status::AlreadyReported => 208,
            Status::IMUsed => 226,
            Status::MultipleChoices => 300,
            Status::MovedPermanently => 301,
            Status::Found => 302,
            Status::SeeOther => 303,
            Status::NotModified => 304,
            Status::UseProxy => 305,
            Status::SwitchProxy => 306,
            Status::TemporaryRedirect => 307,
            Status::PermanentRedirect => 308,
            Status::BadRequest => 400,
            Status::Unauthorized => 401,
            Status::PaymentRequired => 402,
            Status::Forbidden => 403,
            Status::NotFound => 404,
            Status::MethodNotAllowed => 405,
            Status::NotAcceptable => 406,
            Status::ProxyAuthenticationRequired => 407,
            Status::RequestTimeout => 408,
            Status::Conflict => 409,
            Status::Gone => 410,
            Status::LengthRequired => 411,
            Status::PreconditionFailed => 412,
            Status::PayloadTooLarge => 413,
            Status::URITooLong => 414,
            Status::UnsupportedMediaType => 415,
            Status::RangeNotSatisfiable => 416,
            Status::ExpectationFailed => 417,
            Status::ImATeapot => 418,
            Status::MisdirectedRequest => 421,
            Status::UnprocessableEntity => 422,
            Status::Locked => 423,
            Status::FailedDependency => 424,
            Status::TooEarly => 425,
            Status::UpgradeRequired => 426,
            Status::PreconditionRequired => 428,
            Status::TooManyRequests => 429,
            Status::RequestHeaderFieldsTooLarge => 431,
            Status::UnavailableForLegalReasons => 451,
            Status::InternalServerError => 500,
            Status::NotImplemented => 501,
            Status::BadGateway => 502,
            Status::ServiceUnavailable => 503,
            Status::GatewayTimeout => 504,
            Status::HTTPVersionNotSupported => 505,
            Status::VariantAlsoNegotiates => 506,
            Status::InsufficientStorage => 507,
            Status::LoopDetected => 508,
            Status::NotExtended => 510,
            Status::NetworkAuthenticationRequired => 511,
            Status::Custom(code) => code,
        }
    }

    /// The reason phrase of the status.
    pub open spec fn phrase(self) -> Seq<char> {
        match self {
            Status::Continue => "Continue"@,
            Status::SwitchingProtocols => "Switching Protocols"@,
            Status::Processing => "Processing"@,
            Status::EarlyHints => "Early Hints"@,
            Status::OK => "OK"@,
            Status::Created => "Created"@,
            Status::Accepted => "Accepted"@,
            Status::NonAuthoritativeInformation => "Non-Authoritative Information"@,
            Status::NoContent => "No Content"@,
            Status::ResetContent => "Reset Content"@,
            Status::PartialContent => "Partial Content"@,
            Status::MultiStatus => "Multi-Status"@,
            Status::AlreadyReported => "Already Reported"@,
            Status::IMUsed => "IM Used"@,
            Status::MultipleChoices => "Multiple Choices"@,
            Status::MovedPermanently => "Moved Permanently"@,
            Status::Found => "Found"@,
            Status::SeeOther => "See Other"@,
            Status::NotModified => "Not Modified"@,
            Status::UseProxy => "Use Proxy"@,
            Status::SwitchProxy => "Switch Proxy"@,
            Status::TemporaryRedirect => "Temporary Redirect"@,
            Status::PermanentRedirect => "Permanent Redirect"@,
            Status::BadRequest => "Bad Request"@,
            Status::Unauthorized => "Unauthorized"@,
            Status::PaymentRequired => "Payment Required"@,
            Status::Forbidden => "Forbidden"@,
            Status::NotFound => "Not Found"@,
            Status::MethodNotAllowed => "Method Not Allowed"@,
            Status::NotAcceptable => "Not Acceptable"@,
            Status::ProxyAuthenticationRequired => "Proxy Authentication Required"@,
            Status::RequestTimeout => "Request Timeout"@,
            Status::Conflict => "Conflict"@,
            Status::Gone => "Gone"@,
            Status::LengthRequired => "Length Required"@,
            Status::PreconditionFailed => "Precondition Failed"@,
            Status::PayloadTooLarge => "Payload Too Large"@,
            Status::URITooLong => "URI Too Long"@,
            Status::UnsupportedMediaType => "Unsupported Media Type"@,
            Status::RangeNotSatisfiable => "Range Not Satisfiable"@,
            Status::ExpectationFailed => "Expectation Failed"@,
            Status::ImATeapot => "I'm a teapot"@,
            Status::MisdirectedRequest => "Misdirected Request"@,
            Status::UnprocessableEntity => "Unprocessable Entity"@,
            Status::Locked => "Locked"@,
            Status::FailedDependency => "Failed Dependency"@,
            Status::TooEarly => "Too Early"@,
            Status::UpgradeRequired => "Upgrade Required"@,
            Status::PreconditionRequired => "Precondition Required"@,
            Status::TooManyRequests => "Too Many Requests"@,
            Status::RequestHeaderFieldsTooLarge => "Request Header Fields Too Large"@,
            Status::UnavailableForLegalReasons => "Unavailable For Legal Reasons"@,
            Status::InternalServerError => "Internal Server Error"@,
            Status::NotImplemented => "Not Implemented"@,
            Status::BadGateway => "Bad Gateway"@,
            Status::ServiceUnavailable => "Service Unavailable"@,
            Status::GatewayTimeout => "Gateway Timeout"@,
            Status::HTTPVersionNotSupported => "HTTP Version Not Supported"@,
            Status::VariantAlsoNegotiates => "Variant Also Negotiates"@,
            Status::InsufficientStorage => "Insufficient Storage"@,
            Status::LoopDetected => "Loop Detected"@,
            Status::NotExtended => "Not Extended"@,
            Status::NetworkAuthenticationRequired => "Network Authentication Required"@,
            Status::Custom(_) => "Custom"@,
        }
    }

    pub fn as_u16(&self) -> (r: u16)
        ensures
            r == self.code(),
    {
        match *self {
            Status::Continue => 100,
            Status::SwitchingProtocols => 101,
            Status::Processing => 102,
            Status::EarlyHints => 103,
            Status::OK => 200,
            Status::Created => 201,
            Status::Accepted => 202,
            Status::NonAuthoritativeInformation => 203,
            Status::NoContent => 204,
            Status::ResetContent => 205,
            Status::PartialContent => 206,
            Status::MultiStatus => 207,
            Status::AlreadyReported => 208,
            Status::IMUsed => 226,
            Status::MultipleChoices => 300,
            Status::MovedPermanently => 301,
            Status::Found => 302,
            Status::SeeOther => 303,
            Status::NotModified => 304,
            Status::UseProxy => 305,
            Status::SwitchProxy => 306,
            Status::TemporaryRedirect => 307,
            Status::PermanentRedirect => 308,
            Status::BadRequest => 400,
            Status::Unauthorized => 401,
            Status::PaymentRequired => 402,
            Status::Forbidden => 403,
            Status::NotFound => 404,
            Status::MethodNotAllowed => 405,
            Status::NotAcceptable => 406,
            Status::ProxyAuthenticationRequired => 407,
            Status::RequestTimeout => 408,
            Status::Conflict => 409,
            Status::Gone => 410,
            Status::LengthRequired => 411,
            Status::PreconditionFailed => 412,
            Status::PayloadTooLarge => 413,
            Status::URITooLong => 414,
            Status::UnsupportedMediaType => 415,
            Status::RangeNotSatisfiable => 416,
            Status::ExpectationFailed => 417,
            Status::ImATeapot => 418,
            Status::MisdirectedRequest => 421,
            Status::UnprocessableEntity => 422,
            Status::Locked => 423,
            Status::FailedDependency => 424,
            Status::TooEarly => 425,
            Status::UpgradeRequired => 426,
            Status::PreconditionRequired => 428,
            Status::TooManyRequests => 429,
            Status::RequestHeaderFieldsTooLarge => 431,
            Status::UnavailableForLegalReasons => 451,
            Status::InternalServerError => 500,
            Status::NotImplemented => 501,
            Status::BadGateway => 502,
            Status::ServiceUnavailable => 503,
            Status::GatewayTimeout => 504,
            Status::HTTPVersionNotSupported => 505,
            Status::VariantAlsoNegotiates => 506,
            Status::InsufficientStorage => 507,
            Status::LoopDetected => 508,
            Status::NotExtended => 510,
            Status::NetworkAuthenticationRequired => 511,
            Status::Custom(code) => code,
        }
    }

    pub fn reason_phrase(&self) -> (r: &'static str)
        ensures
            r@ == self.phrase(),
    {
        match *self {
            Status::Continue => "Continue",
            Status::SwitchingProtocols => "Switching Protocols",
            Status::Processing => "Processing",
            Status::EarlyHints => "Early Hints",
            Status::OK => "OK",
            Status::Created => "Created",
            Status::Accepted => "Accepted",
            Status::NonAuthoritativeInformation => "Non-Authoritative Information",
            Status::NoContent => "No Content",
            Status::ResetContent => "Reset Content",
            Status::PartialContent => "Partial Content",
            Status::MultiStatus => "Multi-Status",
            Status::AlreadyReported => "Already Reported",
            Status::IMUsed => "IM Used",
            Status::MultipleChoices => "Multiple Choices",
            Status::MovedPermanently => "Moved Permanently",
            Status::Found => "Found",
            Status::SeeOther => "See Other",
            Status::NotModified => "Not Modified",
            Status::UseProxy => "Use Proxy",
            Status::SwitchProxy => "Switch Proxy",
            Status::TemporaryRedirect => "Temporary Redirect",
            Status::PermanentRedirect => "Permanent Redirect",
            Status::BadRequest => "Bad Request",
            Status::Unauthorized => "Unauthorized",
            Status::PaymentRequired => "Payment Required",
            Status::Forbidden => "Forbidden",
            Status::NotFound => "Not Found",
            Status::MethodNotAllowed => "Method Not Allowed",
            Status::NotAcceptable => "Not Acceptable",
            Status::ProxyAuthenticationRequired => "Proxy Authentication Required",
            Status::RequestTimeout => "Request Timeout",
            Status::Conflict => "Conflict",
            Status::Gone => "Gone",
            Status::LengthRequired => "Length Required",
            Status::PreconditionFailed => "Precondition Failed",
            Status::PayloadTooLarge => "Payload Too Large",
            Status::URITooLong => "URI Too Long",
            Status::UnsupportedMediaType => "Unsupported Media Type",
            Status::RangeNotSatisfiable => "Range Not Satisfiable",
            Status::ExpectationFailed => "Expectation Failed",
            Status::ImATeapot => "I'm a teapot",
            Status::MisdirectedRequest => "Misdirected Request",
            Status::UnprocessableEntity => "Unprocessable Entity",
            Status::Locked => "Locked",
            Status::FailedDependency => "Failed Dependency",
            Status::TooEarly => "Too Early",
            Status::UpgradeRequired => "Upgrade Required",
            Status::PreconditionRequired => "Precondition Required",
            Status::TooManyRequests => "Too Many Requests",
            Status::RequestHeaderFieldsTooLarge => "Request Header Fields Too Large",
            Status::UnavailableForLegalReasons => "Unavailable For Legal Reasons",
            Status::InternalServerError => "Internal Server Error",
            Status::NotImplemented => "Not Implemented",
            Status::BadGateway => "Bad Gateway",
            Status::ServiceUnavailable => "Service Unavailable",
            Status::GatewayTimeout => "Gateway Timeout",
            Status::HTTPVersionNotSupported => "HTTP Version Not Supported",
            Status::VariantAlsoNegotiates => "Variant Also Negotiates",
            Status::InsufficientStorage => "Insufficient Storage",
            Status::LoopDetected => "Loop Detected",
            Status::NotExtended => "Not Extended",
            Status::NetworkAuthenticationRequired => "Network Authentication Required",
            Status::Custom(_) => "Custom",
        }
    }

    /// The status as text: its code and reason phrase, separated by a space.
    pub fn to_text(&self) -> (r: String)
        ensures
            r@ == decimal(self.code() as nat) + " "@ + self.phrase(),
    {
        let mut s = String::new();
        push_decimal(&mut s, self.as_u16() as u64);
        s.append(" ");
        s.append(self.reason_phrase());
        assert(s@ =~= decimal(self.code() as nat) + " "@ + self.phrase());
        s
    }

    pub fn class(&self) -> (r: StatusClass)
        ensures
            r == class_of_code(self.code()),
    {
        let code = self.as_u16();
        if 100 <= code && code <= 199 {
            StatusClass::Informational
        } else if 200 <= code && code <= 299 {
            StatusClass::Success
        } else if 300 <= code && code <= 399 {
            StatusClass::Redirection
        } else if 400 <= code && code <= 499 {
            StatusClass::ClientError
        } else if 500 <= code && code <= 599 {
            StatusClass::ServerError
        } else {
            StatusClass::Unknown
        }
    }
}


/// Index of the first `:` in `s`, or `s.len()` when there is none.
pub open spec fn colon_pos(s: Seq<char>) -> int
    decreases s.len(),
{
    if s.len() == 0 {
        0
    } else if s[0] == ':' {
        0
    } else {
        1 + colon_pos(s.drop_first())
    }
}

proof fn lemma_colon_pos(s: Seq<char>, i: int)
    requires
        0 <= i <= s.len(),
        forall|k: int| 0 <= k < i ==> s[k] != ':',
        i == s.len() || s[i] == ':',
    ensures
        colon_pos(s) == i,
    decreases i,
{
    if i > 0 {
        lemma_colon_pos(s.drop_first(), i - 1);
    }
}

/// A well-formed header line reads back exactly: for a key without `:` that
/// does not start with whitespace, the line `key:value` gives that key, any
/// whitespace before the colon included, and the value trimmed.
pub proof fn lemma_header_line_round_trip(key: Seq<char>, value: Seq<char>)
    requires
        forall|k: int| 0 <= k < key.len() ==> key[k] != ':',
        key.len() == 0 || !is_ws(key[0]),
    ensures
        line_key(key + ":"@ + value) == key,
        line_value(key + ":"@ + value) == trim(value),
{
    reveal_strlit(":");
    let x = key + ":"@;
    assert(x[key.len() as int] == ':');
    assert(x[0] == if key.len() == 0 { ':' } else { key[0] });
    lemma_trim_after_prefix(x, value);
    let t = x + trim_end(value);
    assert(key + ":"@ + value == x + value);
    assert forall|k: int| 0 <= k < key.len() implies t[k] != ':' by {
        assert(t[k] == key[k]);
    }
    assert(t[key.len() as int] == ':');
    lemma_colon_pos(t, key.len() as int);
    assert(t.subrange(0, key.len() as int) =~= key);
    assert(t.subrange((key.len() + 1) as int, t.len() as int) =~= trim_end(value));
    lemma_trim_of_trim_end(value);
}

/// The class of a status is a function of its numeric code alone: statuses
/// with one code share a class, `Custom(c)` has the class of `c`, and every
/// registered status has a known class.
pub proof fn lemma_class_by_code(a: Status, b: Status, c: u16)
    ensures
        a.code() == b.code() ==> class_of_code(a.code()) == class_of_code(b.code()),
        class_of_code(Status::Custom(c).code()) == class_of_code(c),
        !(a is Custom) ==> class_of_code(a.code()) != StatusClass::Unknown,
{
}

/// The key that a header line gives: the trimmed line up to its first `:`.
pub open spec fn line_key(line: Seq<char>) -> Seq<char> {
    let t = trim(line);
    t.subrange(0, colon_pos(t))
}

/// The value that a header line gives: what follows the first `:` of the
/// trimmed line, trimmed; empty when there is no `:`.
pub open spec fn line_value(line: Seq<char>) -> Seq<char> {
    let t = trim(line);
    let i = colon_pos(t);
    if i < t.len() {
        trim(t.subrange(i + 1, t.len() as int))
    } else {
        seq![]
    }
}

/// One header: a key and a value, kept as given.
#[derive(Debug, Clone)]
pub struct Header {
    pub key: String,
    pub value: String,
}

impl PartialEq for Header {
    fn eq(&self, other: &Header) -> (r: bool) {
        self.key == other.key && self.value == other.value
    }
}

impl vstd::std_specs::cmp::PartialEqSpecImpl for Header {
    open spec fn obeys_eq_spec() -> bool {
        true
    }

    open spec fn eq_spec(&self, other: &Header) -> bool {
        self.key@ == other.key@ && self.value@ == other.value@
    }
}

impl Header {
    pub fn new(key: &str, value: &str) -> (r: Header)
        ensures
            r.key@ == key@,
            r.value@ == value@,
    {
        Header { key: key.to_owned(), value: value.to_owned() }
    }

    /// Reads a header line: the key runs up to the first `:` of the trimmed
    /// line (whitespace before the colon stays part of it), the value is the
    /// rest, trimmed. A line without `:` gives the whole trimmed line as key
    /// and an empty value.
    pub fn parse(header_line: String) -> (r: Header)
        ensures
            r.key@ == line_key(header_line@),
            r.value@ == line_value(header_line@),
    {
        let line = header_line.as_str();
        let cs = chars_of(line);
        let (a, b) = trim_range(&cs, 0, cs.len());
        assert(cs@.subrange(0, cs@.len() as int) =~= cs@);
        let ghost t = cs@.subrange(a as int, b as int);
        let mut i: usize = a;
        while i < b && cs[i] != ':'
            invariant
                a <= i <= b <= cs@.len(),
                forall|k: int| a <= k < i ==> cs@[k] != ':',
            decreases b - i,
        {
            i = i + 1;
        }
        proof {
            assert forall|k: int| 0 <= k < i - a implies t[k] != ':' by {
                assert(t[k] == cs@[a + k]);
            }
            lemma_colon_pos(t, i - a);
        }
        let key = line.substring_char(a, i).to_owned();
        assert(key@ =~= t.subrange(0, i - a));
        if i < b {
            let (c, d) = trim_range(&cs, i + 1, b);
            assert(t.subrange(i - a + 1, t.len() as int) =~= cs@.subrange(i + 1, b as int));
            let value = line.substring_char(c, d).to_owned();
            Header { key, value }
        } else {
            let value = String::new();
            assert(value@ =~= seq![]);
            Header { key, value }
        }
    }

    pub fn key(&self) -> (r: &str)
        ensures
            r@ == self.key@,
    {
        self.key.as_str()
    }

    pub fn value(&self) -> (r: &str)
        ensures
            r@ == self.value@,
    {
        self.value.as_str()
    }
}

} // verus!
