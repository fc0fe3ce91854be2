use minihttp::request::{HttpRequest, HttpMethod};
use minihttp::response::{HttpResponse, HttpStatus};
use minihttp::router::{file_read_response, file_write_response, route, RoutePlan};

fn respond(buffer: &[u8]) -> HttpResponse {
    match route(&HttpRequest::from_buffer(buffer).expect("should parse")) {
        RoutePlan::Respond(r) => r,
        _ => panic!("expected an immediate response"),
    }
}

fn plan(buffer: &[u8]) -> RoutePlan {
    route(&HttpRequest::from_buffer(buffer).expect("should parse"))
}

fn header<'a>(r: &'a HttpResponse, name: &[u8]) -> Option<&'a Vec<u8>> {
    r.headers.iter().rev().find(|h| h.name == name).map(|h| &h.value)
}

#[test]
fn root_returns_200_empty_for_any_method() {
    for request in [
        &b"GET / HTTP/1.1\r\n\r\n"[..],
        &b"POST / HTTP/1.1\r\n\r\n"[..],
        &b"DELETE / HTTP/1.1\r\n\r\n"[..],
        &b"PUT / HTTP/1.1\r\n\r\n"[..],
        &b"PATCH / HTTP/1.1\r\n\r\n"[..],
    ] {
        let r = respond(request);
        assert_eq!(r.status_code, HttpStatus::Okay);
        assert!(r.body.is_empty());
    }
}

#[test]
fn echo_returns_rest_of_path() {
    let r = respond(b"GET /echo/a/b/c HTTP/1.1\r\n\r\n");
    assert_eq!(r.status_code, HttpStatus::Okay);
    assert_eq!(r.body, b"a/b/c".to_vec());
    assert_eq!(header(&r, b"Content-Type"), Some(&b"text/plain".to_vec()));
    assert_eq!(header(&r, b"Content-Length"), Some(&b"5".to_vec()));
    assert_eq!(
        r.to_string(),
        b"HTTP/1.1 200 OK\r\nContent-Type: text/plain\r\nContent-Length: 5\r\n\r\na/b/c".to_vec()
    );
}

#[test]
fn echo_of_nothing_is_empty() {
    let r = respond(b"GET /echo HTTP/1.1\r\n\r\n");
    assert_eq!(r.status_code, HttpStatus::Okay);
    assert!(r.body.is_empty());
    let r = respond(b"GET /echo/ HTTP/1.1\r\n\r\n");
    assert!(r.body.is_empty());
}

#[test]
fn user_agent_returns_header_value_exactly() {
    let r = respond(b"GET /user-agent HTTP/1.1\r\nUser-Agent: FooBar/1.2 (Mixed CASE)\r\n\r\n");
    assert_eq!(r.status_code, HttpStatus::Okay);
    assert_eq!(r.body, b"FooBar/1.2 (Mixed CASE)".to_vec());
    assert_eq!(header(&r, b"Content-Type"), Some(&b"text/plain".to_vec()));
}

#[test]
fn user_agent_without_header_is_500() {
    let r = respond(b"GET /user-agent HTTP/1.1\r\nHost: x\r\n\r\n");
    assert_eq!(r.status_code, HttpStatus::Error);
    assert!(r.body.is_empty());
}

#[test]
fn unknown_segment_is_404_for_any_method() {
    for request in [
        &b"GET /nope HTTP/1.1\r\n\r\n"[..],
        &b"POST /nope HTTP/1.1\r\n\r\n"[..],
        &b"PUT /nope/deeper HTTP/1.1\r\n\r\n"[..],
    ] {
        let r = respond(request);
        assert_eq!(r.status_code, HttpStatus::NotFound);
        assert!(r.body.is_empty());
    }
}

#[test]
fn files_get_becomes_a_read_plan() {
    match plan(b"GET /files/notes.txt HTTP/1.1\r\n\r\n") {
        RoutePlan::ReadFile(name) => assert_eq!(name, b"notes.txt".to_vec()),
        _ => panic!("expected a read plan"),
    }
}

#[test]
fn files_post_becomes_a_write_plan_with_the_body() {
    let buffer = b"POST /files/up.bin HTTP/1.1\r\nContent-Length: 4\r\n\r\nDATA";
    match plan(buffer) {
        RoutePlan::WriteFile { name, contents } => {
            assert_eq!(name, b"up.bin".to_vec());
            assert_eq!(contents, b"DATA".to_vec());
        },
        _ => panic!("expected a write plan"),
    }
}

#[test]
fn files_other_methods_are_404() {
    let r = respond(b"DELETE /files/x HTTP/1.1\r\n\r\n");
    assert_eq!(r.status_code, HttpStatus::NotFound);
}

#[test]
fn files_without_a_name_is_404() {
    let r = respond(b"GET /files HTTP/1.1\r\n\r\n");
    assert_eq!(r.status_code, HttpStatus::NotFound);
    let r = respond(b"GET /files/ HTTP/1.1\r\n\r\n");
    assert_eq!(r.status_code, HttpStatus::NotFound);
}

#[test]
fn path_traversal_is_rejected_not_served() {
    // Even if such a file exists outside the served directory, no read plan
    // is ever produced for it.
    for request in [
        &b"GET /files/../secret HTTP/1.1\r\n\r\n"[..],
        &b"POST /files/.. HTTP/1.1\r\nContent-Length: 2\r\n\r\nhi"[..],
        &b"GET /files/a..b HTTP/1.1\r\n\r\n"[..],
    ] {
        match plan(request) {
            RoutePlan::Respond(r) => {
                assert_eq!(r.status_code, HttpStatus::NotFound);
                assert!(r.body.is_empty());
            },
            _ => panic!("a traversal attempt must not touch storage"),
        }
    }
}

#[test]
fn single_dots_in_names_are_allowed() {
    match plan(b"GET /files/a.b.c HTTP/1.1\r\n\r\n") {
        RoutePlan::ReadFile(name) => assert_eq!(name, b"a.b.c".to_vec()),
        _ => panic!("expected a read plan"),
    }
}

#[test]
fn existing_file_answers_200_with_identical_bytes() {
    let contents: Vec<u8> = vec![1, 2, 3, 251, 13, 10];
    let r = file_read_response(Some(contents.clone()));
    assert_eq!(r.status_code, HttpStatus::Okay);
    assert_eq!(r.body, contents);
    assert_eq!(header(&r, b"Content-Type"), Some(&b"application/octet-stream".to_vec()));
    assert_eq!(header(&r, b"Content-Length"), Some(&b"6".to_vec()));
}

#[test]
fn missing_file_answers_404_with_empty_body() {
    let r = file_read_response(None);
    assert_eq!(r.status_code, HttpStatus::NotFound);
    assert!(r.body.is_empty());
}

#[test]
fn write_outcome_answers_201_or_500() {
    let r = file_write_response(true);
    assert_eq!(r.status_code, HttpStatus::Created);
    assert!(r.body.is_empty());
    let r = file_write_response(false);
    assert_eq!(r.status_code, HttpStatus::Error);
}

#[test]
fn post_then_get_round_trip_preserves_bytes() {
    // The library half of the write/read round trip: the write plan carries
    // the posted body verbatim, and a read answering with the stored bytes
    // returns them unchanged.
    let buffer = b"POST /files/x HTTP/1.1\r\nContent-Length: 5\r\n\r\nB\x00y\xffs";
    let stored = match plan(buffer) {
        RoutePlan::WriteFile { name, contents } => {
            assert_eq!(name, b"x".to_vec());
            contents
        },
        _ => panic!("expected a write plan"),
    };
    let r = file_read_response(Some(stored));
    assert_eq!(r.status_code, HttpStatus::Okay);
    assert_eq!(r.body, b"B\x00y\xffs".to_vec());
}

#[test]
fn full_pipeline_echo_wire_bytes() {
    let request = b"GET /echo/abc HTTP/1.1\r\nHost: localhost:4221\r\n\r\n";
    let parsed = HttpRequest::from_buffer(request).expect("should parse");
    assert!(matches!(parsed.method, HttpMethod::GET));
    let wire = match route(&parsed) {
        RoutePlan::Respond(r) => r.to_string(),
        _ => panic!("echo answers at once"),
    };
    assert_eq!(
        wire,
        b"HTTP/1.1 200 OK\r\nContent-Type: text/plain\r\nContent-Length: 3\r\n\r\nabc".to_vec()
    );
}
