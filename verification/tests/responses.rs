use minihttp::request::Header;
use minihttp::response::{HttpResponse, HttpStatus};

#[test]
fn serializes_empty_response() {
    let r = HttpResponse::new(HttpStatus::Okay, Vec::new(), b"");
    assert_eq!(r.to_string(), b"HTTP/1.1 200 OK\r\n\r\n".to_vec());
}

#[test]
fn serializes_body_with_content_length() {
    let r = HttpResponse::new(HttpStatus::Okay, Vec::new(), b"abc");
    assert_eq!(r.to_string(), b"HTTP/1.1 200 OK\r\nContent-Length: 3\r\n\r\nabc".to_vec());
}

#[test]
fn keeps_given_headers_in_order() {
    let headers = vec![
        Header { name: b"X-A".to_vec(), value: b"1".to_vec() },
        Header { name: b"X-B".to_vec(), value: b"2".to_vec() },
    ];
    let r = HttpResponse::new(HttpStatus::Okay, headers, b"hi");
    assert_eq!(
        r.to_string(),
        b"HTTP/1.1 200 OK\r\nX-A: 1\r\nX-B: 2\r\nContent-Length: 2\r\n\r\nhi".to_vec()
    );
}

#[test]
fn empty_body_adds_no_content_length() {
    let r = HttpResponse::new(HttpStatus::NotFound, Vec::new(), b"");
    assert!(r.headers.is_empty());
    assert_eq!(r.to_string(), b"HTTP/1.1 404 Not Found\r\n\r\n".to_vec());
}

#[test]
fn no_bytes_follow_the_body() {
    let r = HttpResponse::new(HttpStatus::Okay, Vec::new(), b"tail");
    let wire = r.to_string();
    assert!(wire.ends_with(b"\r\ntail"));
}

#[test]
fn status_codes_and_reason_phrases() {
    assert_eq!(HttpStatus::Okay.code(), 200);
    assert_eq!(HttpStatus::Created.code(), 201);
    assert_eq!(HttpStatus::NotFound.code(), 404);
    assert_eq!(HttpStatus::Error.code(), 500);
    assert_eq!(HttpStatus::Okay.status_text(), "OK");
    assert_eq!(HttpStatus::Created.status_text(), "Created");
    assert_eq!(HttpStatus::NotFound.status_text(), "Not Found");
    assert_eq!(HttpStatus::Error.status_text(), "Internal Server Error");
}

#[test]
fn created_and_error_status_lines() {
    let created = HttpResponse::new(HttpStatus::Created, Vec::new(), b"");
    assert_eq!(created.to_string(), b"HTTP/1.1 201 Created\r\n\r\n".to_vec());
    let error = HttpResponse::new(HttpStatus::Error, Vec::new(), b"");
    assert_eq!(error.to_string(), b"HTTP/1.1 500 Internal Server Error\r\n\r\n".to_vec());
}

#[test]
fn body_bytes_are_untouched() {
    let body: Vec<u8> = vec![0, 155, 13, 10, 255, 7];
    let r = HttpResponse::new(HttpStatus::Okay, Vec::new(), &body);
    let wire = r.to_string();
    assert_eq!(&wire[wire.len() - body.len()..], &body[..]);
}

#[test]
fn multi_digit_content_length() {
    let body = vec![b'x'; 120];
    let r = HttpResponse::new(HttpStatus::Okay, Vec::new(), &body);
    let wire = r.to_string();
    let expected: Vec<u8> = [b"HTTP/1.1 200 OK\r\nContent-Length: 120\r\n\r\n".to_vec(), body].concat();
    assert_eq!(wire, expected);
}
