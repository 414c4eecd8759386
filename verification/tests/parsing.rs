use oauth_listener::http::ParseOutcome;
use oauth_listener::http::parse_request;

fn parsed(bytes: &[u8]) -> oauth_listener::http::ParsedRequest {
    match parse_request(&bytes.to_vec()) {
        ParseOutcome::Valid(pr) => pr,
        ParseOutcome::Malformed => panic!("expected a well-formed request"),
    }
}

#[test]
fn plain_get_parses() {
    let raw = b"GET /callback?code=abc HTTP/1.1\r\nHost: localhost\r\n\r\n";
    let pr = parsed(raw);
    assert_eq!(pr.path, b"/callback?code=abc".to_vec());
    assert_eq!(pr.headers.len(), 1);
    assert_eq!(pr.headers[0].name, b"Host".to_vec());
    assert_eq!(pr.headers[0].value, b"localhost".to_vec());
    assert_eq!(pr.body_start, raw.len());
}

#[test]
fn header_values_are_trimmed() {
    let pr = parsed(b"GET / HTTP/1.1\r\nX-Spaced:   padded value  \r\n\r\n");
    assert_eq!(pr.headers[0].name, b"X-Spaced".to_vec());
    assert_eq!(pr.headers[0].value, b"padded value".to_vec());
}

#[test]
fn body_start_points_after_blank_line() {
    let raw = b"POST /submit HTTP/1.1\r\nContent-Length: 5\r\n\r\nhello";
    let pr = parsed(raw);
    assert_eq!(&raw[pr.body_start..], b"hello");
}

#[test]
fn no_blank_line_is_malformed() {
    let r = parse_request(&b"GET / HTTP/1.1\r\nHost: x\r\n".to_vec());
    assert!(matches!(r, ParseOutcome::Malformed));
}

#[test]
fn missing_spaces_in_request_line_is_malformed() {
    let r = parse_request(&b"GET/submit\r\n\r\n".to_vec());
    assert!(matches!(r, ParseOutcome::Malformed));
}

#[test]
fn header_without_colon_is_malformed() {
    let r = parse_request(&b"GET / HTTP/1.1\r\nNoColonHere\r\n\r\n".to_vec());
    assert!(matches!(r, ParseOutcome::Malformed));
}

#[test]
fn garbage_is_malformed_not_a_path() {
    let r = parse_request(&b"xyz".to_vec());
    assert!(matches!(r, ParseOutcome::Malformed));
}

#[test]
fn empty_input_is_malformed() {
    let r = parse_request(&Vec::new());
    assert!(matches!(r, ParseOutcome::Malformed));
}
