use libhttp::connection::{parse_length, Action, CloseReason, Connection, Event, Phase};
use libhttp::http::{Header, Method, Status};
use libhttp::message::{HttpRequest, HttpResponse, RequestLineError};
use libhttp::server::ServerConfig;

fn line(s: &str) -> Event {
    Event::Line(s.to_string())
}

fn feed(c: Connection, e: Event) -> (Connection, Action) {
    c.step(e)
}

fn header_value(r: &HttpResponse, key: &str) -> Option<String> {
    r.headers.iter().find(|h| h.key == key).map(|h| h.value.clone())
}

#[test]
fn request_line_gives_method_and_path() {
    let r = HttpRequest::parse("GET /hello HTTP/1.1\r\n".to_string()).ok().unwrap();
    assert_eq!(r.method, Method::Get);
    assert_eq!(r.path, "/hello");
    assert!(r.headers.is_empty());
    assert!(r.body.is_none());
    assert_eq!(r.to_text(), "GET /hello ");
}

#[test]
fn request_line_ignores_extra_words_and_spacing() {
    let r = HttpRequest::parse("  PUT\t/a/b   HTTP/1.0 extra\r\n".to_string()).ok().unwrap();
    assert_eq!(r.method, Method::Put);
    assert_eq!(r.path, "/a/b");
}

#[test]
fn request_line_with_two_words_is_malformed() {
    let r = HttpRequest::parse("GET /x\r\n".to_string());
    assert!(matches!(r, Err(RequestLineError::Malformed)));
    let r = HttpRequest::parse("\r\n".to_string());
    assert!(matches!(r, Err(RequestLineError::Malformed)));
}

#[test]
fn request_line_with_unknown_method_is_refused() {
    let r = HttpRequest::parse("FOO /x HTTP/1.1\r\n".to_string());
    assert!(matches!(r, Err(RequestLineError::UnknownMethod)));
    let r = HttpRequest::parse("get /x HTTP/1.1\r\n".to_string());
    assert!(matches!(r, Err(RequestLineError::UnknownMethod)));
}

#[test]
fn response_starts_with_default_headers() {
    let r = HttpResponse::with_date(
        Status::OK,
        vec![Header::new("Server", "teapot")],
        Some(b"hello".to_vec()),
        "Tue, 1 Jul 2003 10:52:37 +0000",
    );
    let keys: Vec<&str> = r.headers.iter().map(|h| h.key()).collect();
    assert_eq!(keys, vec!["Server", "Date", "Content-Length", "Connection", "Server"]);
    assert_eq!(r.headers[0].value, "Rust Server");
    assert_eq!(r.headers[1].value, "Tue, 1 Jul 2003 10:52:37 +0000");
    assert_eq!(r.headers[2].value, "5");
    assert_eq!(r.headers[3].value, "keep-alive");
    assert_eq!(r.headers[4].value, "teapot");
}

#[test]
fn response_without_body_declares_zero_length() {
    let r = HttpResponse::new(Status::NoContent, vec![], None);
    assert_eq!(header_value(&r, "Content-Length").unwrap(), "0");
}

#[test]
fn response_is_dated_now() {
    let r = HttpResponse::new(Status::OK, vec![], None);
    let date = header_value(&r, "Date").unwrap();
    assert!(date.len() > 20);
    assert!(date.ends_with("+0000"));
}

#[test]
fn response_bytes_layout() {
    let r = HttpResponse::with_date(
        Status::NotFound,
        vec![Header::new("A", "b")],
        Some(vec![0u8, 255, 10]),
        "D",
    );
    let mut expected = b"HTTP/1.1 404\r\nServer: Rust Server\r\nDate: D\r\nContent-Length: 3\r\nConnection: keep-alive\r\nA: b\r\n\r\n".to_vec();
    expected.extend_from_slice(&[0u8, 255, 10]);
    assert_eq!(r.to_bytes(), expected);
}

#[test]
fn response_bytes_without_body_end_with_blank_line() {
    let r = HttpResponse { status: Status::Custom(799), headers: vec![], body: None };
    assert_eq!(r.to_bytes(), b"HTTP/1.1 799\r\n\r\n".to_vec());
    let r = HttpResponse { status: Status::Custom(0), headers: vec![Header::new("K", "ü")], body: Some(vec![]) };
    assert_eq!(r.to_bytes(), "HTTP/1.1 0\r\nK: ü\r\n\r\n".as_bytes().to_vec());
}

#[test]
fn lengths_read_as_usize_does() {
    assert_eq!(parse_length("5"), Some(5));
    assert_eq!(parse_length("+12"), Some(12));
    assert_eq!(parse_length("007"), Some(7));
    assert_eq!(parse_length("18446744073709551615"), "18446744073709551615".parse::<usize>().ok());
    assert_eq!(parse_length("18446744073709551616"), None);
    assert_eq!(parse_length(""), None);
    assert_eq!(parse_length("+"), None);
    assert_eq!(parse_length("-1"), None);
    assert_eq!(parse_length(" 5"), None);
    assert_eq!(parse_length("5x"), None);
}

#[test]
fn hello_request_gets_framed_response() {
    let c = Connection::new(true);
    let (c, a) = feed(c, line("GET /hello HTTP/1.1\r\n"));
    assert!(matches!(a, Action::ReadLine));
    let (c, a) = feed(c, line("Host: x\r\n"));
    assert!(matches!(a, Action::ReadLine));
    let (c, a) = feed(c, line("\r\n"));
    let req = match a {
        Action::Dispatch(req) => req,
        _ => panic!("expected a dispatch"),
    };
    assert_eq!(req.method, Method::Get);
    assert_eq!(req.path, "/hello");
    assert_eq!(req.headers, vec![Header::new("Host", "x")]);
    assert!(req.body.is_none());
    let resp = HttpResponse::new(Status::OK, vec![], Some(b"hi".to_vec()));
    let (c, a) = feed(c, Event::Response(resp));
    let bytes = match a {
        Action::Send(r) => r.to_bytes(),
        _ => panic!("expected a response to send"),
    };
    assert!(matches!(c.phase, Phase::AwaitingRequestLine));
    let text = String::from_utf8(bytes).unwrap();
    assert!(text.starts_with("HTTP/1.1 200\r\n"));
    assert!(text.contains("Content-Length: 2\r\n"));
    assert!(text.ends_with("\r\n\r\nhi"));
}

#[test]
fn two_requests_on_one_connection() {
    let mut c = Connection::new(true);
    for (i, path) in ["/one", "/two"].iter().enumerate() {
        let (c1, _) = feed(c, line(&format!("GET {} HTTP/1.1\r\n", path)));
        let (c2, a) = feed(c1, line("\r\n"));
        let req = match a {
            Action::Dispatch(req) => req,
            _ => panic!("expected a dispatch"),
        };
        assert_eq!(req.path, *path);
        let body = format!("reply {}", i).into_bytes();
        let (c3, a) = feed(c2, Event::Response(HttpResponse::new(Status::OK, vec![], Some(body.clone()))));
        match a {
            Action::Send(r) => assert!(r.to_bytes().ends_with(&body)),
            _ => panic!("expected a response to send"),
        }
        assert!(matches!(c3.phase, Phase::AwaitingRequestLine));
        c = c3;
    }
    let (c, a) = feed(c, line(""));
    assert!(matches!(a, Action::Close(CloseReason::PeerClosed)));
    assert!(matches!(c.phase, Phase::Closed));
}

#[test]
fn declared_body_is_read() {
    let c = Connection::new(true);
    let (c, _) = feed(c, line("POST /upload HTTP/1.1\r\n"));
    let (c, _) = feed(c, line("Content-Length: 5\r\n"));
    let (c, a) = feed(c, line("\r\n"));
    assert!(matches!(a, Action::ReadBody(5)));
    let (_, a) = feed(c, Event::Body(b"hello".to_vec()));
    match a {
        Action::Dispatch(req) => assert_eq!(req.body, Some(b"hello".to_vec())),
        _ => panic!("expected a dispatch"),
    }
}

#[test]
fn no_declared_length_means_no_body() {
    let c = Connection::new(true);
    let (c, _) = feed(c, line("POST /upload HTTP/1.1\r\n"));
    let (c, _) = feed(c, line("Content-Type: text/plain\r\n"));
    let (_, a) = feed(c, line("\r\n"));
    match a {
        Action::Dispatch(req) => assert!(req.body.is_none()),
        _ => panic!("expected a dispatch"),
    }
}

#[test]
fn unreadable_or_later_length_is_not_used() {
    let c = Connection::new(true);
    let (c, _) = feed(c, line("POST / HTTP/1.1\r\n"));
    let (c, _) = feed(c, line("content-length: 3\r\n"));
    let (c, _) = feed(c, line("Content-Length: abc\r\n"));
    let (c, _) = feed(c, line("Content-Length: 4\r\n"));
    let (_, a) = feed(c, line("\r\n"));
    match a {
        Action::Dispatch(req) => assert!(req.body.is_none()),
        _ => panic!("expected a dispatch"),
    }
}

#[test]
fn zero_length_gives_empty_body() {
    let c = Connection::new(true);
    let (c, _) = feed(c, line("POST / HTTP/1.1\r\n"));
    let (c, _) = feed(c, line("Content-Length: 0\r\n"));
    let (c, a) = feed(c, line("\r\n"));
    assert!(matches!(a, Action::ReadBody(0)));
    let (_, a) = feed(c, Event::Body(vec![]));
    match a {
        Action::Dispatch(req) => assert_eq!(req.body, Some(vec![])),
        _ => panic!("expected a dispatch"),
    }
}

#[test]
fn short_body_closes() {
    let c = Connection::new(true);
    let (c, _) = feed(c, line("POST / HTTP/1.1\r\n"));
    let (c, _) = feed(c, line("Content-Length: 5\r\n"));
    let (c, _) = feed(c, line("\r\n"));
    let (c, a) = feed(c, Event::Body(b"hel".to_vec()));
    assert!(matches!(a, Action::Close(CloseReason::ShortBody)));
    assert!(matches!(c.phase, Phase::Closed));
}

#[test]
fn without_handler_every_request_is_rejected() {
    for first in ["GET / HTTP/1.1\r\n", "DELETE /thing HTTP/1.0\r\n"] {
        let c = Connection::new(false);
        let (c, _) = feed(c, line(first));
        let (c, a) = feed(c, line("\r\n"));
        let r = match a {
            Action::Send(r) => r,
            _ => panic!("expected a response to send"),
        };
        assert_eq!(r.status, Status::BadRequest);
        assert!(r.body.is_none());
        let keys: Vec<&str> = r.headers.iter().map(|h| h.key()).collect();
        assert_eq!(keys, vec!["Server", "Date", "Content-Length", "Connection"]);
        assert_eq!(header_value(&r, "Content-Length").unwrap(), "0");
        assert!(r.to_bytes().starts_with(b"HTTP/1.1 400\r\n"));
        assert!(matches!(c.phase, Phase::AwaitingRequestLine));
    }
}

#[test]
fn unknown_method_closes_without_response() {
    let c = Connection::new(true);
    let (c, a) = feed(c, line("FOO /x HTTP/1.1\r\n"));
    assert!(matches!(a, Action::Close(CloseReason::BadRequestLine(RequestLineError::UnknownMethod))));
    assert!(matches!(c.phase, Phase::Closed));
}

#[test]
fn malformed_request_line_closes() {
    let c = Connection::new(false);
    let (_, a) = feed(c, line("GET\r\n"));
    assert!(matches!(a, Action::Close(CloseReason::BadRequestLine(RequestLineError::Malformed))));
}

#[test]
fn unexpected_event_closes() {
    let c = Connection::new(true);
    let (c, a) = feed(c, Event::Body(vec![1]));
    assert!(matches!(a, Action::Close(CloseReason::UnexpectedEvent)));
    assert!(matches!(c.phase, Phase::Closed));
}

#[test]
fn preset_configuration() {
    let cfg = ServerConfig::preset();
    assert_eq!(cfg.hostname, "127.0.0.1");
    assert_eq!(cfg.port, 80);
    assert_eq!(cfg.address(), "127.0.0.1:80");
    assert_eq!(cfg.default_headers[0], Header::new("Server", "libhttp/0.1.0"));
    assert_eq!(cfg.default_headers[1], Header::new("Connection", "keep-alive"));
    let other = ServerConfig { hostname: "0.0.0.0".to_string(), port: 65535, default_headers: vec![] };
    assert_eq!(other.address(), "0.0.0.0:65535");
}
