use minihttp::request::{HttpMethod, HttpRequest, ParseError};

fn req(buffer: &[u8]) -> HttpRequest {
    HttpRequest::from_buffer(buffer).expect("should parse")
}

fn header<'a>(r: &'a HttpRequest, name: &[u8]) -> Option<&'a Vec<u8>> {
    r.header_value(name)
}

#[test]
fn parses_simple_get() {
    let r = req(b"GET / HTTP/1.1\r\nHost: example\r\n\r\n");
    assert!(matches!(r.method, HttpMethod::GET));
    assert_eq!(r.path, b"/".to_vec());
    assert_eq!(r.version, b"HTTP/1.1".to_vec());
    assert_eq!(header(&r, b"Host"), Some(&b"example".to_vec()));
    assert_eq!(r.body, Vec::<u8>::new());
}

#[test]
fn body_is_exactly_content_length() {
    // More bytes follow than Content-Length declares: exactly 5 are consumed.
    let r = req(b"POST /files/x HTTP/1.1\r\nContent-Length: 5\r\n\r\nhelloEXTRA");
    assert_eq!(r.body, b"hello".to_vec());
}

#[test]
fn body_assembled_across_reads() {
    // A client may deliver the body in pieces; parsing retries as bytes
    // arrive and consumes exactly the declared length once they are there.
    let full = b"POST /files/x HTTP/1.1\r\nContent-Length: 10\r\n\r\n0123456789";
    let mut buffer: Vec<u8> = Vec::new();
    let mut outcome = HttpRequest::from_buffer(&buffer);
    for chunk in full.chunks(7) {
        assert!(outcome.is_err());
        buffer.extend_from_slice(chunk);
        outcome = HttpRequest::from_buffer(&buffer);
    }
    let r = outcome.expect("complete buffer should parse");
    assert_eq!(r.body, b"0123456789".to_vec());
}

#[test]
fn truncated_body_is_distinct_from_malformed() {
    let r = HttpRequest::from_buffer(b"POST /x HTTP/1.1\r\nContent-Length: 10\r\n\r\nabc");
    assert_eq!(r.err(), Some(ParseError::TruncatedBody));
}

#[test]
fn missing_content_length_means_empty_body() {
    let r = req(b"GET /echo/hi HTTP/1.1\r\n\r\nleftover");
    assert_eq!(r.body, Vec::<u8>::new());
}

#[test]
fn bare_lf_is_tolerated() {
    let r = req(b"GET /abc HTTP/1.1\nHost: x\n\n");
    assert_eq!(r.path, b"/abc".to_vec());
    assert_eq!(header(&r, b"Host"), Some(&b"x".to_vec()));
}

#[test]
fn request_line_needs_three_tokens() {
    let two = HttpRequest::from_buffer(b"GET /\r\n\r\n");
    assert_eq!(two.err(), Some(ParseError::MalformedRequest));
    let four = HttpRequest::from_buffer(b"GET / HTTP/1.1 junk\r\n\r\n");
    assert_eq!(four.err(), Some(ParseError::MalformedRequest));
}

#[test]
fn unknown_method_is_malformed() {
    let r = HttpRequest::from_buffer(b"BREW /pot HTTP/1.1\r\n\r\n");
    assert_eq!(r.err(), Some(ParseError::MalformedRequest));
}

#[test]
fn header_line_without_colon_is_malformed() {
    let r = HttpRequest::from_buffer(b"GET / HTTP/1.1\r\nno colon here\r\n\r\n");
    assert_eq!(r.err(), Some(ParseError::MalformedRequest));
}

#[test]
fn missing_blank_line_is_malformed() {
    let r = HttpRequest::from_buffer(b"GET / HTTP/1.1\r\nHost: x\r\n");
    assert_eq!(r.err(), Some(ParseError::MalformedRequest));
}

#[test]
fn content_length_must_be_a_number() {
    let r = HttpRequest::from_buffer(b"GET / HTTP/1.1\r\nContent-Length: abc\r\n\r\n");
    assert_eq!(r.err(), Some(ParseError::MalformedRequest));
}

#[test]
fn content_length_too_large_for_usize_is_malformed() {
    let r = HttpRequest::from_buffer(
        b"GET / HTTP/1.1\r\nContent-Length: 99999999999999999999999999\r\n\r\n",
    );
    assert_eq!(r.err(), Some(ParseError::MalformedRequest));
}

#[test]
fn path_must_start_with_slash() {
    let r = HttpRequest::from_buffer(b"GET nope HTTP/1.1\r\n\r\n");
    assert_eq!(r.err(), Some(ParseError::MalformedRequest));
}

#[test]
fn header_names_and_values_are_trimmed() {
    let r = req(b"GET / HTTP/1.1\r\n  Host  :   spaced out   \r\n\r\n");
    assert_eq!(header(&r, b"Host"), Some(&b"spaced out".to_vec()));
}

#[test]
fn header_value_keeps_everything_after_first_colon() {
    let r = req(b"GET / HTTP/1.1\r\nHost: a:b:c\r\n\r\n");
    assert_eq!(header(&r, b"Host"), Some(&b"a:b:c".to_vec()));
}

#[test]
fn duplicate_header_last_occurrence_wins() {
    let r = req(b"GET / HTTP/1.1\r\nX-K: first\r\nX-K: second\r\n\r\n");
    assert_eq!(header(&r, b"X-K"), Some(&b"second".to_vec()));
}

#[test]
fn header_lookup_is_case_sensitive() {
    let r = req(b"GET / HTTP/1.1\r\nUser-Agent: curl\r\n\r\n");
    assert_eq!(header(&r, b"user-agent"), None);
    assert_eq!(header(&r, b"User-Agent"), Some(&b"curl".to_vec()));
}

#[test]
fn extra_whitespace_between_tokens_is_fine() {
    let r = req(b"GET   /a\t HTTP/1.1\r\n\r\n");
    assert!(matches!(r.method, HttpMethod::GET));
    assert_eq!(r.path, b"/a".to_vec());
}

#[test]
fn method_from_str_recognizes_all_methods() {
    assert!(matches!(HttpMethod::from_str("GET"), Some(HttpMethod::GET)));
    assert!(matches!(HttpMethod::from_str("POST"), Some(HttpMethod::POST)));
    assert!(matches!(HttpMethod::from_str("PUT"), Some(HttpMethod::PUT)));
    assert!(matches!(HttpMethod::from_str("DELETE"), Some(HttpMethod::DELETE)));
    assert!(matches!(HttpMethod::from_str("PATCH"), Some(HttpMethod::PATCH)));
    assert!(HttpMethod::from_str("get").is_none());
    assert!(HttpMethod::from_str("").is_none());
}
