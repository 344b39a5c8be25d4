//! The per-connection request cycle as a state machine. The caller performs
//! each action (read a line, read body bytes, call the handler, write a
//! response, close) and feeds back what came of it; the decisions are here.
use vstd::prelude::*;
use crate::http::{Header, Status, HEADER_CONTENT_LENGTH, line_key, line_value};
use crate::message::{
    header_pairs, leading_headers, request_line_outcome, HttpRequest, HttpResponse,
    RequestLineError,
};
use crate::text::{chars_of, trim, trim_range};

verus! {

/// Value of a decimal digit character.
pub open spec fn digit_value(c: char) -> nat {
    ((c as u32) - ('0' as u32)) as nat
}

/// A decimal digit character.
pub open spec fn is_digit(c: char) -> bool {
    '0' <= c && c <= '9'
}

/// The number that a run of decimal digits denotes.
pub open spec fn digits_value(s: Seq<char>) -> nat
    decreases s.len(),
{
    if s.len() == 0 {
        0
    } else {
        digits_value(s.drop_last()) * 10 + digit_value(s.last())
    }
}

/// `s` without one leading `+`.
pub open spec fn unsigned_part(s: Seq<char>) -> Seq<char> {
    if s.len() > 0 && s[0] == '+' {
        s.drop_first()
    } else {
        s
    }
}

pub open spec fn all_digits(d: Seq<char>) -> bool {
    forall|k: int| 0 <= k < d.len() ==> is_digit(#[trigger] d[k])
}

/// A `Content-Length` value read as `usize::from_str` reads it: an optional
/// `+`, then one or more decimal digits, denoting at most `usize::MAX`.
pub open spec fn length_of_text(s: Seq<char>) -> Option<nat> {
    let d = unsigned_part(s);
    if d.len() > 0 && all_digits(d) && digits_value(d) <= usize::MAX {
        Some(digits_value(d))
    } else {
        None
    }
}

/// The body length that headers declare: the value of the first
/// `Content-Length` header (exact, case-sensitive key), if it reads as a
/// length. Later `Content-Length` headers are not consulted.
pub open spec fn declared_length(hs: Seq<(Seq<char>, Seq<char>)>) -> Option<nat>
    decreases hs.len(),
{
    if hs.len() == 0 {
        None
    } else if hs[0].0 == "Content-Length"@ {
        length_of_text(hs[0].1)
    } else {
        declared_length(hs.drop_first())
    }
}

proof fn lemma_digits_value_grows(s: Seq<char>, i: int)
    requires
        0 <= i <= s.len(),
        forall|k: int| 0 <= k < s.len() ==> is_digit(#[trigger] s[k]),
    ensures
        digits_value(s.subrange(0, i)) <= digits_value(s),
    decreases s.len() - i,
{
    if i < s.len() {
        let p = s.drop_last();
        assert(p.subrange(0, i) =~= s.subrange(0, i));
        assert forall|k: int| 0 <= k < p.len() implies is_digit(#[trigger] p[k]) by {
            assert(p[k] == s[k]);
        }
        lemma_digits_value_grows(p, i);
        assert(s.drop_last() == p);
    } else {
        assert(s.subrange(0, i) =~= s);
    }
}

/// Reads a length as `usize::from_str` does.
pub fn parse_length(text: &str) -> (r: Option<usize>)
    ensures
        match length_of_text(text@) {
            Some(n) => r is Some && r->Some_0 as nat == n,
            None => r is None,
        },
{
    let cs = chars_of(text);
    let start: usize = if cs.len() > 0 && cs[0] == '+' { 1 } else { 0 };
    let ghost d = unsigned_part(cs@);
    assert(d =~= cs@.subrange(start as int, cs@.len() as int));
    if start >= cs.len() {
        return None;
    }
    let mut value: usize = 0;
    let mut i: usize = start;
    while i < cs.len()
        invariant
            start <= i <= cs@.len(),
            d == cs@.subrange(start as int, cs@.len() as int),
            d == unsigned_part(text@),
            d.len() > 0,
            forall|k: int| 0 <= k < i - start ==> is_digit(#[trigger] d[k]),
            value as nat == digits_value(d.subrange(0, i - start)),
        decreases cs.len() - i,
    {
        let c = cs[i];
        assert(d[i - start] == cs@[i as int]);
        if !('0' <= c && c <= '9') {
            assert(!is_digit(d[i - start]));
            assert(!all_digits(d));
            return None;
        }
        let dv = (c as u32 - '0' as u32) as usize;
        let ghost p = d.subrange(0, i - start + 1);
        assert(p.drop_last() =~= d.subrange(0, i - start));
        assert(digits_value(p) == value * 10 + dv);
        if value > (usize::MAX - dv) / 10 {
            proof {
                let m = usize::MAX - dv;
                assert(value * 10 + dv > usize::MAX) by (nonlinear_arith)
                    requires value > m / 10, m == usize::MAX - dv, dv <= 9;
                if all_digits(d) {
                    lemma_digits_value_grows(d, i - start + 1);
                }
            }
            return None;
        }
        proof {
            let m = usize::MAX - dv;
            assert(value * 10 + dv <= usize::MAX) by (nonlinear_arith)
                requires value <= m / 10, m == usize::MAX - dv, dv <= 9;
        }
        value = value * 10 + dv;
        i = i + 1;
    }
    assert(d.subrange(0, d.len() as int) =~= d);
    Some(value)
}


/// The body length that `headers` declare (see `declared_length`).
pub fn content_length(headers: &Vec<Header>) -> (r: Option<usize>)
    ensures
        match declared_length(header_pairs(headers@)) {
            Some(n) => r is Some && r->Some_0 as nat == n,
            None => r is None,
        },
{
    let name = HEADER_CONTENT_LENGTH.to_owned();
    let n = headers.len();
    let mut i: usize = 0;
    assert(headers@.subrange(0, n as int) =~= headers@);
    while i < n
        invariant
            n == headers@.len(),
            i <= n,
            name@ == "Content-Length"@,
            declared_length(header_pairs(headers@)) == declared_length(
                header_pairs(headers@.subrange(i as int, n as int)),
            ),
        decreases n - i,
    {
        let ghost rest = header_pairs(headers@.subrange(i as int, n as int));
        assert(rest[0] == (headers@[i as int].key@, headers@[i as int].value@));
        if headers[i].key == name {
            return parse_length(headers[i].value.as_str());
        }
        assert(rest.drop_first() =~= header_pairs(headers@.subrange(i + 1, n as int)));
        i = i + 1;
    }
    None
}

/// Where a connection stands in its request cycle.
pub enum Phase {
    /// Waiting for the first line of a request.
    AwaitingRequestLine,
    /// Reading header lines of the request read so far.
    ReadingHeaders(HttpRequest),
    /// Waiting for this many body bytes of the request.
    ReadingBody(HttpRequest, usize),
    /// The request was handed to the handler; waiting for its response.
    AwaitingResponse,
    /// The connection is over.
    Closed,
}

/// What the caller learned since the last action.
pub enum Event {
    /// A line as read, line ending included; empty at end of input.
    Line(String),
    /// The body bytes that were asked for.
    Body(Vec<u8>),
    /// The handler's response.
    Response(HttpResponse),
}

/// Why a connection ends.
#[derive(Debug, Clone, Copy, PartialEq, Eq, Structural)]
pub enum CloseReason {
    /// End of input where a request line was awaited.
    PeerClosed,
    /// The request line was refused; no response is sent.
    BadRequestLine(RequestLineError),
    /// Fewer body bytes came than `Content-Length` declared.
    ShortBody,
    /// An event that the current phase does not await.
    UnexpectedEvent,
}

/// What the caller does next.
pub enum Action {
    /// Read one line and report it with `Event::Line`.
    ReadLine,
    /// Read exactly this many bytes and report them with `Event::Body`.
    ReadBody(usize),
    /// Call the handler on the request and report its response.
    Dispatch(HttpRequest),
    /// Write the response's bytes, flush, then read the next request line.
    Send(HttpResponse),
    /// Close the connection without writing anything more.
    Close(CloseReason),
}

/// One connection's request cycle.
pub struct Connection {
    pub phase: Phase,
    /// Whether a handler was configured; without one every request is
    /// answered with `400` and the handler is never asked.
    pub has_handler: bool,
}

/// True when `r` is the response given for every request when no handler is
/// configured: `400 Bad Request`, the leading headers for an empty body, no body.
pub open spec fn is_rejection(r: HttpResponse) -> bool {
    &&& r.status == Status::BadRequest
    &&& r.body is None
    &&& r.headers@.len() == 4
    &&& header_pairs(r.headers@) == leading_headers(r.headers@[1].value@, 0)
}

/// True when `next` is what follows a complete request `req` on `c`.
pub open spec fn completes(has_handler: bool, req: HttpRequest, next: (Connection, Action)) -> bool {
    &&& next.0.has_handler == has_handler
    &&& if has_handler {
        next.0.phase is AwaitingResponse && next.1 == Action::Dispatch(req)
    } else {
        next.0.phase is AwaitingRequestLine && next.1 is Send && is_rejection(next.1->Send_0)
    }
}

impl Connection {
    pub fn new(has_handler: bool) -> (r: Connection)
        ensures
            r.phase is AwaitingRequestLine,
            r.has_handler == has_handler,
    {
        Connection { phase: Phase::AwaitingRequestLine, has_handler }
    }

    fn complete(self, req: HttpRequest) -> (r: (Connection, Action))
        ensures
            completes(self.has_handler, req, r),
    {
        if self.has_handler {
            (Connection { phase: Phase::AwaitingResponse, has_handler: true }, Action::Dispatch(req))
        } else {
            let none: Vec<Header> = Vec::new();
            assert(header_pairs(none@) =~= Seq::empty());
            let resp = HttpResponse::new(Status::BadRequest, none, None);
            assert(leading_headers(resp.headers@[1].value@, 0) + Seq::empty() =~= leading_headers(
                resp.headers@[1].value@,
                0,
            ));
            (Connection { phase: Phase::AwaitingRequestLine, has_handler: false }, Action::Send(resp))
        }
    }

    /// Takes the next event and says what to do next.
    pub fn step(self, event: Event) -> (r: (Connection, Action))
        ensures
            r.0.has_handler == self.has_handler,
            match (self.phase, event) {
                (Phase::AwaitingRequestLine, Event::Line(line)) => if line@.len() == 0 {
                    r.0.phase is Closed && r.1 == Action::Close(CloseReason::PeerClosed)
                } else {
                    match request_line_outcome(line@) {
                        Err(e) => r.0.phase is Closed && r.1 == Action::Close(
                            CloseReason::BadRequestLine(e),
                        ),
                        Ok((m, p)) => r.1 is ReadLine && r.0.phase is ReadingHeaders
                            && r.0.phase->ReadingHeaders_0.method == m
                            && r.0.phase->ReadingHeaders_0.path@ == p
                            && r.0.phase->ReadingHeaders_0.headers@.len() == 0
                            && r.0.phase->ReadingHeaders_0.body is None,
                    }
                },
                (Phase::ReadingHeaders(req), Event::Line(line)) => if trim(line@).len() == 0 {
                    match declared_length(header_pairs(req.headers@)) {
                        Some(n) => r.1 is ReadBody && r.1->ReadBody_0 as nat == n && r.0.phase
                            == Phase::ReadingBody(req, r.1->ReadBody_0),
                        None => completes(self.has_handler, req, r),
                    }
                } else {
                    r.1 is ReadLine && r.0.phase is ReadingHeaders && {
                        let q = r.0.phase->ReadingHeaders_0;
                        &&& q.method == req.method
                        &&& q.path == req.path
                        &&& q.hostname == req.hostname
                        &&& q.body == req.body
                        &&& q.headers@.len() == req.headers@.len() + 1
                        &&& q.headers@.subrange(0, req.headers@.len() as int) == req.headers@
                        &&& q.headers@.last().key@ == line_key(line@)
                        &&& q.headers@.last().value@ == line_value(line@)
                    }
                },
                (Phase::ReadingBody(req, n), Event::Body(bytes)) => if bytes@.len() == n {
                    completes(self.has_handler, (HttpRequest { body: Some(bytes), ..req }), r)
                } else {
                    r.0.phase is Closed && r.1 == Action::Close(CloseReason::ShortBody)
                },
                (Phase::AwaitingResponse, Event::Response(resp)) => r.0.phase is AwaitingRequestLine
                    && r.1 == Action::Send(resp),
                _ => r.0.phase is Closed && r.1 == Action::Close(CloseReason::UnexpectedEvent),
            },
    {
        let has_handler = self.has_handler;
        let closed = Connection { phase: Phase::Closed, has_handler };
        match self.phase {
            Phase::AwaitingRequestLine => match event {
                Event::Line(line) => {
                    if line.as_str().is_empty() {
                        return (closed, Action::Close(CloseReason::PeerClosed));
                    }
                    match HttpRequest::parse(line) {
                        Ok(req) => (
                            Connection { phase: Phase::ReadingHeaders(req), has_handler },
                            Action::ReadLine,
                        ),
                        Err(e) => (closed, Action::Close(CloseReason::BadRequestLine(e))),
                    }
                },
                _ => (closed, Action::Close(CloseReason::UnexpectedEvent)),
            },
            Phase::ReadingHeaders(mut req) => match event {
                Event::Line(line) => {
                    let cs = chars_of(line.as_str());
                    let (a, b) = trim_range(&cs, 0, cs.len());
                    assert(cs@.subrange(0, cs@.len() as int) =~= cs@);
                    if a == b {
                        match content_length(&req.headers) {
                            Some(n) => (
                                Connection { phase: Phase::ReadingBody(req, n), has_handler },
                                Action::ReadBody(n),
                            ),
                            None => Connection { phase: Phase::AwaitingRequestLine, has_handler }.complete(req),
                        }
                    } else {
                        let ghost before = req.headers@;
                        req.headers.push(Header::parse(line));
                        assert(req.headers@.subrange(0, before.len() as int) =~= before);
                        (Connection { phase: Phase::ReadingHeaders(req), has_handler }, Action::ReadLine)
                    }
                },
                _ => (closed, Action::Close(CloseReason::UnexpectedEvent)),
            },
            Phase::ReadingBody(mut req, n) => match event {
                Event::Body(bytes) => {
                    if bytes.len() == n {
                        req.body = Some(bytes);
                        Connection { phase: Phase::AwaitingRequestLine, has_handler }.complete(req)
                    } else {
                        (closed, Action::Close(CloseReason::ShortBody))
                    }
                },
                _ => (closed, Action::Close(CloseReason::UnexpectedEvent)),
            },
            Phase::AwaitingResponse => match event {
                Event::Response(resp) => (
                    Connection { phase: Phase::AwaitingRequestLine, has_handler },
                    Action::Send(resp),
                ),
                _ => (closed, Action::Close(CloseReason::UnexpectedEvent)),
            },
            Phase::Closed => (closed, Action::Close(CloseReason::UnexpectedEvent)),
        }
    }
}

} // verus!
