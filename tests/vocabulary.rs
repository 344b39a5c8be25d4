use libhttp::http::{Header, Method, Status, StatusClass};
use libhttp::text::{chars_of, trim_range};

#[test]
fn method_tokens_are_exact() {
    assert_eq!(Method::from_str("GET"), Some(Method::Get));
    assert_eq!(Method::from_str("BREW"), Some(Method::Brew));
    assert_eq!(Method::from_str("PATCH"), Some(Method::Patch));
    assert_eq!(Method::from_str("get"), None);
    assert_eq!(Method::from_str("FOO"), None);
    assert_eq!(Method::from_str(""), None);
    assert_eq!(Method::Delete.as_str(), "DELETE");
}

#[test]
fn every_method_token_reads_back() {
    let all = [
        Method::Get,
        Method::Post,
        Method::Put,
        Method::Delete,
        Method::Options,
        Method::Head,
        Method::Trace,
        Method::Connect,
        Method::Patch,
        Method::Brew,
    ];
    for m in all {
        assert_eq!(Method::from_str(m.as_str()), Some(m));
    }
}

#[test]
fn status_codes_and_phrases() {
    assert_eq!(Status::OK.as_u16(), 200);
    assert_eq!(Status::OK.reason_phrase(), "OK");
    assert_eq!(Status::IMUsed.as_u16(), 226);
    assert_eq!(Status::ImATeapot.reason_phrase(), "I'm a teapot");
    assert_eq!(Status::NetworkAuthenticationRequired.as_u16(), 511);
    assert_eq!(Status::Custom(299).as_u16(), 299);
    assert_eq!(Status::Custom(299).reason_phrase(), "Custom");
    assert_eq!(Status::NotFound.to_text(), "404 Not Found");
    assert_eq!(Status::Custom(7).to_text(), "7 Custom");
}

#[test]
fn status_class_follows_code() {
    assert_eq!(Status::Continue.class(), StatusClass::Informational);
    assert_eq!(Status::NoContent.class(), StatusClass::Success);
    assert_eq!(Status::SeeOther.class(), StatusClass::Redirection);
    assert_eq!(Status::BadRequest.class(), StatusClass::ClientError);
    assert_eq!(Status::BadGateway.class(), StatusClass::ServerError);
    assert_eq!(Status::Custom(250).class(), StatusClass::Success);
    assert_eq!(Status::Custom(599).class(), StatusClass::ServerError);
    assert_eq!(Status::Custom(600).class(), StatusClass::Unknown);
    assert_eq!(Status::Custom(99).class(), StatusClass::Unknown);
    assert_eq!(Status::Custom(404).class(), Status::NotFound.class());
}

#[test]
fn header_line_reads_key_and_trimmed_value() {
    let h = Header::parse("Content-Type:  text/plain \r\n".to_string());
    assert_eq!(h.key(), "Content-Type");
    assert_eq!(h.value(), "text/plain");
}

#[test]
fn header_key_keeps_space_before_colon() {
    let h = Header::parse("Key : v".to_string());
    assert_eq!(h.key(), "Key ");
    assert_eq!(h.value(), "v");
}

#[test]
fn header_splits_at_first_colon_only() {
    let h = Header::parse("Host: example.com:8080".to_string());
    assert_eq!(h.key(), "Host");
    assert_eq!(h.value(), "example.com:8080");
}

#[test]
fn header_without_colon_has_empty_value() {
    let h = Header::parse("  no-colon-here \r\n".to_string());
    assert_eq!(h.key(), "no-colon-here");
    assert_eq!(h.value(), "");
}

#[test]
fn header_line_round_trips() {
    let h = Header::new("X-Token", "abc def");
    let line = format!("{}: {}\r\n", h.key(), h.value());
    let back = Header::parse(line);
    assert_eq!(back, h);
}

#[test]
fn trim_agrees_with_std() {
    let samples = [
        "",
        "   ",
        "a",
        " \t a b \r\n",
        "\u{a0}x\u{3000}",
        "\u{2003}mid dle\u{85}",
        "\u{200b}zero width\u{200b}",
    ];
    for s in samples {
        let cs = chars_of(s);
        let (a, b) = trim_range(&cs, 0, cs.len());
        let got: String = cs[a..b].iter().collect();
        assert_eq!(got, s.trim());
    }
}
