//! Structured responses and the response serializer: a response carries a
//! status, headers and a body, and serializes to wire-exact framing — status
//! line, header lines, a blank line, then the raw body bytes with nothing
//! after them. Serialization is total: every constructible response has wire
//! bytes.

use vstd::prelude::*;

use crate::bytes::{ascii_vec, bytes_of, push_all, render_len, spec_dec};
use crate::request::{headers_view, spec_header_lookup, Header};

verus! {

/// The response statuses the server sends.
#[derive(Clone, Copy, Debug, PartialEq, Eq, Structural)]
pub enum HttpStatus {
    Okay,
    Created,
    NotFound,
    Error,
}

/// Mathematical image of a response.
pub ghost struct RespModel {
    pub version: Seq<u8>,
    pub status: HttpStatus,
    pub headers: Seq<(Seq<u8>, Seq<u8>)>,
    pub body: Seq<u8>,
}

/// A response ready to be serialized.
pub struct HttpResponse {
    pub http_version: Vec<u8>,
    pub status_code: HttpStatus,
    pub headers: Vec<Header>,
    pub body: Vec<u8>,
}

impl View for HttpResponse {
    type V = RespModel;

    open spec fn view(&self) -> RespModel {
        RespModel {
            version: self.http_version@,
            status: self.status_code,
            headers: headers_view(self.headers@),
            body: self.body@,
        }
    }
}

/// The numeric code of a status.
pub open spec fn spec_code(s: HttpStatus) -> int {
    match s {
        HttpStatus::Okay => 200,
        HttpStatus::Created => 201,
        HttpStatus::NotFound => 404,
        HttpStatus::Error => 500,
    }
}

/// The reason phrase of a status.
pub open spec fn spec_status_text(s: HttpStatus) -> Seq<char> {
    match s {
        HttpStatus::Okay => "OK"@,
        HttpStatus::Created => "Created"@,
        HttpStatus::NotFound => "Not Found"@,
        HttpStatus::Error => "Internal Server Error"@,
    }
}

/// The reason phrase as bytes.
pub open spec fn status_text_bytes(s: HttpStatus) -> Seq<u8> {
    match s {
        HttpStatus::Okay => bytes_of("OK"),
        HttpStatus::Created => bytes_of("Created"),
        HttpStatus::NotFound => bytes_of("Not Found"),
        HttpStatus::Error => bytes_of("Internal Server Error"),
    }
}

/// A carriage return and line feed.
pub open spec fn crlf() -> Seq<u8> {
    seq!['\r' as u8, '\n' as u8]
}

/// What the response constructor builds from a status, headers, and a body:
/// the protocol version is fixed, and a `Content-Length` header reflecting
/// the body length is appended whenever the body is non-empty, so consumers
/// can frame the response.
pub open spec fn spec_response(
    status: HttpStatus,
    headers: Seq<(Seq<u8>, Seq<u8>)>,
    body: Seq<u8>,
) -> RespModel {
    RespModel {
        version: bytes_of("HTTP/1.1"),
        status,
        headers: if body.len() > 0 {
            headers.push((bytes_of("Content-Length"), spec_dec(body.len() as int)))
        } else {
            headers
        },
        body,
    }
}

/// A response with the given status and no headers or body.
pub open spec fn plain_response(status: HttpStatus) -> RespModel {
    spec_response(status, Seq::empty(), Seq::empty())
}

/// Each header serialized as `name: value` followed by a line break, in
/// order.
pub open spec fn spec_serialize_headers(hs: Seq<(Seq<u8>, Seq<u8>)>) -> Seq<u8>
    decreases hs.len(),
{
    if hs.len() == 0 {
        Seq::empty()
    } else {
        spec_serialize_headers(hs.drop_last()) + hs.last().0 + seq![':' as u8, ' ' as u8]
            + hs.last().1 + crlf()
    }
}

/// The wire bytes of a response: the status line, the header lines, a blank
/// line, then the raw body bytes with nothing appended after them.
pub open spec fn spec_serialize(m: RespModel) -> Seq<u8> {
    m.version + seq![' ' as u8] + spec_dec(spec_code(m.status)) + seq![' ' as u8]
        + status_text_bytes(m.status) + crlf() + spec_serialize_headers(m.headers) + crlf() + m.body
}

impl HttpStatus {
    /// The reason phrase sent on the status line.
    pub fn status_text(&self) -> (r: &'static str)
        ensures
            r@ == spec_status_text(*self),
            vstd::string::is_ascii(r),
            bytes_of(r) == status_text_bytes(*self),
    {
        proof {
            reveal_strlit("OK");
            reveal_strlit("Created");
            reveal_strlit("Not Found");
            reveal_strlit("Internal Server Error");
            assert(vstd::string::is_ascii("OK"));
            assert(vstd::string::is_ascii("Created"));
            assert(vstd::string::is_ascii("Not Found"));
            assert(vstd::string::is_ascii("Internal Server Error"));
        }
        match self {
            HttpStatus::Okay => "OK",
            HttpStatus::Created => "Created",
            HttpStatus::NotFound => "Not Found",
            HttpStatus::Error => "Internal Server Error",
        }
    }

    /// The numeric code sent on the status line.
    pub fn code(&self) -> (r: u16)
        ensures
            r as int == spec_code(*self),
    {
        match self {
            HttpStatus::Okay => 200,
            HttpStatus::Created => 201,
            HttpStatus::NotFound => 404,
            HttpStatus::Error => 500,
        }
    }
}

/// Serializes the headers block, one `name: value` line per header.
fn serialize_headers(headers: &Vec<Header>) -> (r: Vec<u8>)
    ensures
        r@ == spec_serialize_headers(headers_view(headers@)),
{
    let ghost hv = headers_view(headers@);
    let mut out: Vec<u8> = Vec::new();
    proof {
        assert(headers_view(headers@.subrange(0, 0)) =~= Seq::<(Seq<u8>, Seq<u8>)>::empty());
        assert(out@ =~= spec_serialize_headers(headers_view(headers@.subrange(0, 0))));
    }
    let mut i: usize = 0;
    while i < headers.len()
        invariant
            i <= headers@.len(),
            hv == headers_view(headers@),
            out@ == spec_serialize_headers(hv.subrange(0, i as int)),
        decreases headers@.len() - i,
    {
        push_all(&mut out, headers[i].name.as_slice());
        out.push(':' as u8);
        out.push(' ' as u8);
        push_all(&mut out, headers[i].value.as_slice());
        out.push('\r' as u8);
        out.push('\n' as u8);
        proof {
            let pre = hv.subrange(0, i as int);
            let cur = hv.subrange(0, i + 1);
            assert(cur.drop_last() =~= pre);
            assert(cur.last() == (headers@[i as int].name@, headers@[i as int].value@));
            assert(out@ =~= spec_serialize_headers(pre) + cur.last().0 + seq![':' as u8, ' ' as u8]
                + cur.last().1 + crlf());
        }
        i = i + 1;
    }
    proof {
        assert(hv.subrange(0, hv.len() as int) =~= hv);
    }
    out
}

impl HttpResponse {
    /// Builds a response; appends a `Content-Length` header reflecting the
    /// body length whenever the body is non-empty.
    pub fn new(status_code: HttpStatus, headers: Vec<Header>, body: &[u8]) -> (r: HttpResponse)
        ensures
            r@ == spec_response(status_code, headers_view(headers@), body@),
    {
        proof {
            reveal_strlit("HTTP/1.1");
            reveal_strlit("Content-Length");
            assert(vstd::string::is_ascii("HTTP/1.1"));
            assert(vstd::string::is_ascii("Content-Length"));
        }
        let ghost hv = headers_view(headers@);
        let http_version = ascii_vec("HTTP/1.1");
        let mut headers = headers;
        if body.len() > 0 {
            let name = ascii_vec("Content-Length");
            let value = render_len(body.len());
            headers.push(Header { name, value });
            proof {
                assert(headers_view(headers@) =~= hv.push(
                    (bytes_of("Content-Length"), spec_dec(body@.len() as int)),
                ));
            }
        }
        let body = vstd::slice::slice_to_vec(body);
        HttpResponse { http_version, status_code, headers, body }
    }

    /// Serializes the response to its wire bytes.
    pub fn to_string(self) -> (r: Vec<u8>)
        ensures
            r@ == spec_serialize(self@),
    {
        let mut out: Vec<u8> = Vec::new();
        push_all(&mut out, self.http_version.as_slice());
        out.push(' ' as u8);
        let code_digits = render_len(self.status_code.code() as usize);
        push_all(&mut out, code_digits.as_slice());
        out.push(' ' as u8);
        let text = self.status_code.status_text();
        push_all(&mut out, text.as_bytes());
        proof {
            broadcast use vstd::string::is_ascii_spec_bytes;

            assert(vstd::string::StringSliceAdditionalSpecFns::spec_bytes(text) =~= bytes_of(
                text,
            ));
        }
        out.push('\r' as u8);
        out.push('\n' as u8);
        let hdrs = serialize_headers(&self.headers);
        push_all(&mut out, hdrs.as_slice());
        out.push('\r' as u8);
        out.push('\n' as u8);
        push_all(&mut out, self.body.as_slice());
        proof {
            assert(out@ =~= spec_serialize(self@));
        }
        out
    }
}

/// The wire bytes end with the body itself: the serializer appends the raw
/// body bytes last and nothing — no line break — after them.
pub proof fn lemma_serialize_ends_with_body(m: RespModel)
    ensures
        spec_serialize(m).len() >= m.body.len(),
        spec_serialize(m).subrange(
            spec_serialize(m).len() - m.body.len(),
            spec_serialize(m).len() as int,
        ) == m.body,
{
    let w = spec_serialize(m);
    assert(w.subrange(w.len() - m.body.len(), w.len() as int) =~= m.body);
}

/// A response built by the constructor always declares its body length: when
/// the body is non-empty, its headers give `Content-Length` exactly the
/// decimal spelling of the body's length, whatever headers were passed in.
pub proof fn lemma_response_content_length(
    status: HttpStatus,
    headers: Seq<(Seq<u8>, Seq<u8>)>,
    body: Seq<u8>,
)
    ensures
        body.len() > 0 ==> spec_header_lookup(
            spec_response(status, headers, body).headers,
            bytes_of("Content-Length"),
        ) == Some(spec_dec(body.len() as int)),
{
    if body.len() > 0 {
        let hs = spec_response(status, headers, body).headers;
        assert(hs.last() == (bytes_of("Content-Length"), spec_dec(body.len() as int)));
    }
}

} // verus!
