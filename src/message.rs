//! Requests and responses: reading a request line, building a response with
//! the default headers, and writing a response out as bytes.
use vstd::prelude::*;
use vstd::string::StrSliceExecFns;
use crate::http::{
    Header, Method, Status, CONNECTION_KEEP_ALIVE, HEADER_CONNECTION, HEADER_CONTENT_LENGTH,
    HEADER_DATE, HEADER_SERVER, HTTP_VERSION_1_1,
};
use crate::text::{
    chars_of, decimal, is_word, is_ws, lemma_words_of_joined, push_decimal, word_bounds, words,
};
use vstd::utf8::encode_utf8;

verus! {

/// Why a request line could not be read.
#[derive(Debug, Clone, Copy, PartialEq, Eq, Structural)]
pub enum RequestLineError {
    /// Fewer than three whitespace-separated words.
    Malformed,
    /// The first word is not a known method token.
    UnknownMethod,
}

/// What a request line gives: its method and path, or why it is refused.
/// The third word, the protocol version, is read and not checked; words after
/// it are ignored.
pub open spec fn request_line_outcome(line: Seq<char>) -> Result<(Method, Seq<char>), RequestLineError> {
    let w = words(line);
    if w.len() < 3 {
        Err(RequestLineError::Malformed)
    } else {
        match Method::of_token(w[0]) {
            Some(m) => Ok((m, w[1])),
            None => Err(RequestLineError::UnknownMethod),
        }
    }
}

/// The key and value of each header.
pub open spec fn header_pairs(hs: Seq<Header>) -> Seq<(Seq<char>, Seq<char>)> {
    hs.map_values(|h: Header| (h.key@, h.value@))
}

/// A request as read from a connection.
pub struct HttpRequest {
    pub hostname: String,
    pub path: String,
    pub method: Method,
    pub headers: Vec<Header>,
    pub body: Option<Vec<u8>>,
}

impl HttpRequest {
    /// Reads a request line: method, path and protocol version, separated by
    /// whitespace. The request starts with no headers and no body.
    pub fn parse(request_line: String) -> (r: Result<HttpRequest, RequestLineError>)
        ensures
            match request_line_outcome(request_line@) {
                Ok((m, p)) => r is Ok && r->Ok_0.method == m && r->Ok_0.path@ == p
                    && r->Ok_0.hostname@.len() == 0 && r->Ok_0.headers@.len() == 0
                    && r->Ok_0.body is None,
                Err(e) => r == Err::<HttpRequest, RequestLineError>(e),
            },
    {
        let line = request_line.as_str();
        let cs = chars_of(line);
        let spans = word_bounds(&cs);
        proof { crate::text::lemma_word_spans_bounds(cs@); }
        if spans.len() < 3 {
            return Err(RequestLineError::Malformed);
        }
        let method = match Method::from_str(line.substring_char(spans[0].0, spans[0].1)) {
            Some(m) => m,
            None => return Err(RequestLineError::UnknownMethod),
        };
        let path = line.substring_char(spans[1].0, spans[1].1).to_owned();
        let hostname = String::new();
        assert(hostname@ =~= Seq::<char>::empty());
        Ok(HttpRequest { hostname, path, method, headers: Vec::new(), body: None })
    }

    /// The request as one line of text: method, path and host name.
    pub fn to_text(&self) -> (r: String)
        ensures
            r@ == self.method.token() + " "@ + self.path@ + " "@ + self.hostname@,
    {
        let mut s = self.method.as_str().to_owned();
        s.append(" ");
        s.append(self.path.as_str());
        s.append(" ");
        s.append(self.hostname.as_str());
        s
    }
}


/// The number of bytes in an optional body.
pub open spec fn body_len(body: Option<Vec<u8>>) -> nat {
    match body {
        Some(b) => b@.len(),
        None => 0,
    }
}

/// The bytes of an optional body; none when it is absent.
pub open spec fn body_bytes(body: Option<Vec<u8>>) -> Seq<u8> {
    match body {
        Some(b) => b@,
        None => seq![],
    }
}

/// The headers that every response built by `HttpResponse::new` starts with.
pub open spec fn leading_headers(date: Seq<char>, content_length: nat) -> Seq<(Seq<char>, Seq<char>)> {
    seq![
        ("Server"@, "Rust Server"@),
        ("Date"@, date),
        ("Content-Length"@, decimal(content_length)),
        ("Connection"@, "keep-alive"@),
    ]
}

/// `key: value` lines, each ended by CRLF, in order.
pub open spec fn header_lines(hs: Seq<(Seq<char>, Seq<char>)>) -> Seq<char>
    decreases hs.len(),
{
    if hs.len() == 0 {
        seq![]
    } else {
        header_lines(hs.drop_last()) + hs.last().0 + ": "@ + hs.last().1 + "\r\n"@
    }
}

/// The status line: protocol version and numeric code, without a reason phrase.
pub open spec fn status_line(code: u16) -> Seq<char> {
    "HTTP/1.1 "@ + decimal(code as nat) + "\r\n"@
}

/// Everything of a response before its body: status line, header lines and
/// the empty line.
pub open spec fn response_head(code: u16, hs: Seq<(Seq<char>, Seq<char>)>) -> Seq<char> {
    status_line(code) + header_lines(hs) + "\r\n"@
}

/// The current date and time in RFC 2822 form, for the `Date` header.
/// Relies on chrono's `Utc::now` and `DateTime::to_rfc2822`; the latter panics
/// only for years below 0 or above 9999, which the system clock does not give.
#[verifier::external_body]
fn now_rfc2822() -> (r: String) {
    chrono::Utc::now().to_rfc2822()
}

/// A response: status, headers in order, optional body.
#[derive(Debug, Clone)]
pub struct HttpResponse {
    pub status: Status,
    pub headers: Vec<Header>,
    pub body: Option<Vec<u8>>,
}

impl HttpResponse {
    /// A response whose headers are `Server`, `Date` (the given date),
    /// `Content-Length` (the body's length, 0 without a body) and
    /// `Connection: keep-alive`, followed by `headers`.
    pub fn with_date(status: Status, headers: Vec<Header>, body: Option<Vec<u8>>, date: &str) -> (r: HttpResponse)
        ensures
            r.status == status,
            r.body == body,
            header_pairs(r.headers@) == leading_headers(date@, body_len(body)) + header_pairs(headers@),
    {
        let content_length: usize = match &body {
            Some(b) => b.len(),
            None => 0,
        };
        let mut length_text = String::new();
        push_decimal(&mut length_text, content_length as u64);
        let mut all: Vec<Header> = Vec::new();
        all.push(Header::new(HEADER_SERVER, "Rust Server"));
        all.push(Header::new(HEADER_DATE, date));
        all.push(Header::new(HEADER_CONTENT_LENGTH, length_text.as_str()));
        all.push(Header::new(HEADER_CONNECTION, CONNECTION_KEEP_ALIVE));
        let ghost first = all@;
        let mut rest = headers;
        let ghost given = rest@;
        all.append(&mut rest);
        assert(all@ =~= first + given);
        assert(header_pairs(all@) =~= leading_headers(date@, body_len(body)) + header_pairs(given));
        HttpResponse { status, headers: all, body }
    }

    /// As `with_date`, dated now.
    pub fn new(status: Status, headers: Vec<Header>, body: Option<Vec<u8>>) -> (r: HttpResponse)
        ensures
            r.status == status,
            r.body == body,
            r.headers@.len() == 4 + headers@.len(),
            header_pairs(r.headers@) == leading_headers(r.headers@[1].value@, body_len(body))
                + header_pairs(headers@),
    {
        let date = now_rfc2822();
        let r = HttpResponse::with_date(status, headers, body, date.as_str());
        assert(header_pairs(r.headers@).len() == r.headers@.len());
        assert(header_pairs(headers@).len() == headers@.len());
        assert(header_pairs(r.headers@)[1] == (r.headers@[1].key@, r.headers@[1].value@));
        r
    }

    /// The response on the wire: `HTTP/1.1 <code>` and CRLF, each header as
    /// `key: value` and CRLF, an empty line, then the body bytes as they are.
    pub fn to_bytes(&self) -> (r: Vec<u8>)
        ensures
            r@ == response_bytes(*self),
    {
        let mut text = HTTP_VERSION_1_1.to_owned();
        text.append(" ");
        proof {
            reveal_strlit("HTTP/1.1");
            reveal_strlit(" ");
            reveal_strlit("HTTP/1.1 ");
            assert(text@ =~= "HTTP/1.1 "@);
        }
        push_decimal(&mut text, self.status.as_u16() as u64);
        text.append("\r\n");
        assert(text@ == status_line(self.status.code()));
        let n = self.headers.len();
        let mut i: usize = 0;
        while i < n
            invariant
                n == self.headers@.len(),
                i <= n,
                text@ == status_line(self.status.code()) + header_lines(
                    header_pairs(self.headers@.subrange(0, i as int)),
                ),
            decreases n - i,
        {
            let h = &self.headers[i];
            text.append(h.key.as_str());
            text.append(": ");
            text.append(h.value.as_str());
            text.append("\r\n");
            let ghost hs = header_pairs(self.headers@.subrange(0, i + 1));
            assert(hs.drop_last() =~= header_pairs(self.headers@.subrange(0, i as int)));
            i = i + 1;
        }
        assert(self.headers@.subrange(0, n as int) =~= self.headers@);
        text.append("\r\n");
        let head = text.as_str().as_bytes();
        let mut out: Vec<u8> = Vec::new();
        let mut j: usize = 0;
        while j < head.len()
            invariant
                j <= head@.len(),
                out@ == head@.subrange(0, j as int),
            decreases head@.len() - j,
        {
            out.push(head[j]);
            j = j + 1;
            assert(out@ =~= head@.subrange(0, j as int));
        }
        assert(head@.subrange(0, head@.len() as int) =~= head@);
        let ghost start = out@;
        match &self.body {
            Some(b) => {
                let mut k: usize = 0;
                while k < b.len()
                    invariant
                        k <= b@.len(),
                        out@ == start + b@.subrange(0, k as int),
                    decreases b@.len() - k,
                {
                    out.push(b[k]);
                    k = k + 1;
                    assert(out@ =~= start + b@.subrange(0, k as int));
                }
                assert(b@.subrange(0, b@.len() as int) =~= b@);
            },
            None => {
                assert(out@ =~= start + seq![]);
            },
        }
        out
    }
}


/// The bytes of a response on the wire.
pub open spec fn response_bytes(r: HttpResponse) -> Seq<u8> {
    encode_utf8(response_head(r.status.code(), header_pairs(r.headers@))) + body_bytes(r.body)
}

proof fn lemma_encode_utf8_concat(a: Seq<char>, b: Seq<char>)
    ensures
        encode_utf8(a + b) == encode_utf8(a) + encode_utf8(b),
    decreases a.len(),
{
    if a.len() == 0 {
        assert(a + b =~= b);
        assert(encode_utf8(a) + encode_utf8(b) =~= encode_utf8(b));
    } else {
        assert((a + b).drop_first() =~= a.drop_first() + b);
        assert((a + b)[0] == a[0]);
        lemma_encode_utf8_concat(a.drop_first(), b);
        assert(encode_utf8(a + b) =~= encode_utf8(a) + encode_utf8(b));
    }
}

proof fn lemma_method_token(m: Method)
    ensures
        is_word(m.token()),
        Method::of_token(m.token()) == Some(m),
{
    reveal_strlit("GET");
    reveal_strlit("POST");
    reveal_strlit("PUT");
    reveal_strlit("DELETE");
    reveal_strlit("OPTIONS");
    reveal_strlit("HEAD");
    reveal_strlit("TRACE");
    reveal_strlit("CONNECT");
    reveal_strlit("PATCH");
    reveal_strlit("BREW");
    assert("GET"@.len() == 3 && "GET"@[0] == 'G');
    assert("POST"@.len() == 4 && "POST"@[0] == 'P');
    assert("PUT"@.len() == 3 && "PUT"@[0] == 'P');
    assert("DELETE"@.len() == 6 && "DELETE"@[0] == 'D');
    assert("OPTIONS"@.len() == 7 && "OPTIONS"@[0] == 'O');
    assert("HEAD"@.len() == 4 && "HEAD"@[0] == 'H');
    assert("TRACE"@.len() == 5 && "TRACE"@[0] == 'T');
    assert("CONNECT"@.len() == 7 && "CONNECT"@[0] == 'C');
    assert("PATCH"@.len() == 5 && "PATCH"@[0] == 'P');
    assert("BREW"@.len() == 4 && "BREW"@[0] == 'B');
    let t = m.token();
    assert(forall|k: int| 0 <= k < t.len() ==> !is_ws(#[trigger] t[k]));
}

/// A request line made of a method's token, a path and a version, each a
/// single word, separated by single spaces, reads back as that method and
/// path; and the bytes of every response with a given status begin with the
/// status line `HTTP/1.1 <code>` CRLF.
pub proof fn lemma_request_line_round_trip(
    m: Method,
    path: Seq<char>,
    version: Seq<char>,
    resp: HttpResponse,
)
    requires
        is_word(path),
        is_word(version),
    ensures
        request_line_outcome(m.token() + " "@ + path + " "@ + version) == Ok::<
            (Method, Seq<char>),
            RequestLineError,
        >((m, path)),
        response_bytes(resp).subrange(0, encode_utf8(status_line(resp.status.code())).len() as int)
            == encode_utf8(status_line(resp.status.code())),
{
    reveal_strlit(" ");
    assert(" "@ =~= seq![' ']);
    lemma_method_token(m);
    lemma_words_of_joined(m.token(), path, version);
    let code = resp.status.code();
    let rest = header_lines(header_pairs(resp.headers@)) + "\r\n"@;
    assert(response_head(code, header_pairs(resp.headers@)) =~= status_line(code) + rest);
    lemma_encode_utf8_concat(status_line(code), rest);
    let e = encode_utf8(status_line(code));
    assert(response_bytes(resp) =~= e + (encode_utf8(rest) + body_bytes(resp.body)));
    assert(response_bytes(resp).subrange(0, e.len() as int) =~= e);
}

} // verus!
