//! The request parser: turns a raw byte buffer read from a connection into a
//! structured request, or reports that the bytes are malformed or that the
//! declared body has not arrived in full.
//!
//! The grammar is modelled by spec functions over the byte sequence
//! ([`spec_parse`] at the top); the executable parser is proved to return
//! exactly what the model says, for every buffer.

use vstd::prelude::*;
use vstd::slice::{slice_subrange, slice_to_vec};

use crate::bytes::{
    ascii_vec, bytes_eq, bytes_of, find_byte, lemma_find_bounds, parse_len, skip_ws, spec_find,
    spec_parse_len, spec_skip_ws, spec_token_end, spec_trim, token_end, trim,
};

verus! {

/// The request methods the server understands.
#[derive(Clone, Copy, Debug, PartialEq, Eq, Structural)]
pub enum HttpMethod {
    GET,
    POST,
    PUT,
    DELETE,
    PATCH,
}

/// Why a buffer failed to parse: the head is not a well-formed request, or
/// the head is fine but the buffer holds fewer body bytes than the declared
/// `Content-Length`.
#[derive(Clone, Copy, Debug, PartialEq, Eq, Structural)]
pub enum ParseError {
    MalformedRequest,
    TruncatedBody,
}

/// One header field: a name and a value, both raw bytes.
pub struct Header {
    pub name: Vec<u8>,
    pub value: Vec<u8>,
}

/// A parsed request.
pub struct HttpRequest {
    pub method: HttpMethod,
    pub path: Vec<u8>,
    pub version: Vec<u8>,
    pub headers: Vec<Header>,
    pub body: Vec<u8>,
}

/// Mathematical image of a parsed request.
pub ghost struct ReqModel {
    pub method: HttpMethod,
    pub path: Seq<u8>,
    pub version: Seq<u8>,
    pub headers: Seq<(Seq<u8>, Seq<u8>)>,
    pub body: Seq<u8>,
}

/// What a buffer parses to.
pub ghost enum SpecParse {
    Req(ReqModel),
    Malformed,
    Truncated,
}

/// Headers as pairs of byte sequences, in order.
pub open spec fn headers_view(hs: Seq<Header>) -> Seq<(Seq<u8>, Seq<u8>)> {
    hs.map_values(|h: Header| (h.name@, h.value@))
}

impl View for HttpRequest {
    type V = ReqModel;

    open spec fn view(&self) -> ReqModel {
        ReqModel {
            method: self.method,
            path: self.path@,
            version: self.version@,
            headers: headers_view(self.headers@),
            body: self.body@,
        }
    }
}

/// The byte spelling of a method token.
pub open spec fn method_bytes(m: HttpMethod) -> Seq<u8> {
    match m {
        HttpMethod::GET => bytes_of("GET"),
        HttpMethod::POST => bytes_of("POST"),
        HttpMethod::PUT => bytes_of("PUT"),
        HttpMethod::DELETE => bytes_of("DELETE"),
        HttpMethod::PATCH => bytes_of("PATCH"),
    }
}

/// The method a token denotes, if any.
pub open spec fn spec_method(tok: Seq<u8>) -> Option<HttpMethod> {
    if tok == method_bytes(HttpMethod::GET) {
        Some(HttpMethod::GET)
    } else if tok == method_bytes(HttpMethod::POST) {
        Some(HttpMethod::POST)
    } else if tok == method_bytes(HttpMethod::PUT) {
        Some(HttpMethod::PUT)
    } else if tok == method_bytes(HttpMethod::DELETE) {
        Some(HttpMethod::DELETE)
    } else if tok == method_bytes(HttpMethod::PATCH) {
        Some(HttpMethod::PATCH)
    } else {
        None
    }
}

/// The line starting at `pos`: its bytes up to the first line feed with any
/// carriage return before it stripped, and the position just past the line
/// feed. `None` when no line feed follows.
pub open spec fn spec_line(s: Seq<u8>, pos: int) -> Option<(Seq<u8>, int)> {
    match spec_find(s, '\n' as u8, pos) {
        Some(i) => {
            let end = if i > pos && s[i - 1] == '\r' as u8 {
                i - 1
            } else {
                i
            };
            Some((s.subrange(pos, end), i + 1))
        },
        None => None,
    }
}

/// The three whitespace-separated tokens of a request line; `None` when the
/// line has fewer or more than three.
pub open spec fn spec_request_line(line: Seq<u8>) -> Option<(Seq<u8>, Seq<u8>, Seq<u8>)> {
    let a1 = spec_skip_ws(line, 0);
    let e1 = spec_token_end(line, a1);
    let a2 = spec_skip_ws(line, e1);
    let e2 = spec_token_end(line, a2);
    let a3 = spec_skip_ws(line, e2);
    let e3 = spec_token_end(line, a3);
    let rest = spec_skip_ws(line, e3);
    if a1 < line.len() && a2 < line.len() && a3 < line.len() && rest >= line.len() {
        Some((line.subrange(a1, e1), line.subrange(a2, e2), line.subrange(a3, e3)))
    } else {
        None
    }
}

/// A header line split on its first colon, name and value trimmed of
/// surrounding whitespace. `None` when the line has no colon.
pub open spec fn spec_header_line(line: Seq<u8>) -> Option<(Seq<u8>, Seq<u8>)> {
    match spec_find(line, ':' as u8, 0) {
        Some(i) => Some(
            (spec_trim(line.subrange(0, i)), spec_trim(line.subrange(i + 1, line.len() as int))),
        ),
        None => None,
    }
}

/// The header block starting at `pos`: header lines accumulate onto `acc`
/// until the blank line, whose following position is the start of the body.
/// `None` when a line has no colon or no blank line ever comes.
pub open spec fn spec_headers(s: Seq<u8>, pos: int, acc: Seq<(Seq<u8>, Seq<u8>)>) -> Option<
    (Seq<(Seq<u8>, Seq<u8>)>, int),
>
    decreases s.len() - pos,
    when 0 <= pos <= s.len()
    via spec_headers_dec
{
    match spec_line(s, pos) {
        None => None,
        Some((line, next)) => {
            if line.len() == 0 {
                Some((acc, next))
            } else {
                match spec_header_line(line) {
                    None => None,
                    Some(h) => spec_headers(s, next, acc.push(h)),
                }
            }
        },
    }
}

#[via_fn]
proof fn spec_headers_dec(s: Seq<u8>, pos: int, acc: Seq<(Seq<u8>, Seq<u8>)>) {
    lemma_find_bounds(s, '\n' as u8, pos);
}

/// The body start a header block yields lies within the buffer.
pub proof fn lemma_headers_bounds(s: Seq<u8>, pos: int, acc: Seq<(Seq<u8>, Seq<u8>)>)
    requires
        0 <= pos <= s.len(),
    ensures
        match spec_headers(s, pos, acc) {
            Some(t) => 0 <= t.1 <= s.len(),
            None => true,
        },
    decreases s.len() - pos,
{
    lemma_find_bounds(s, '\n' as u8, pos);
    match spec_line(s, pos) {
        Some((line, next)) => {
            if line.len() != 0 {
                match spec_header_line(line) {
                    Some(h) => {
                        lemma_headers_bounds(s, next, acc.push(h));
                    },
                    None => {
                    },
                }
            }
        },
        None => {
        },
    }
}

/// The value a request's headers declare for a given name; when a name is
/// given more than once the last occurrence wins.
pub open spec fn spec_header_lookup(hs: Seq<(Seq<u8>, Seq<u8>)>, name: Seq<u8>) -> Option<Seq<u8>>
    decreases hs.len(),
{
    if hs.len() == 0 {
        None
    } else if hs.last().0 == name {
        Some(hs.last().1)
    } else {
        spec_header_lookup(hs.drop_last(), name)
    }
}

/// The declared body length: the parsed `Content-Length` value, zero when the
/// header is absent, `None` when it is present but not a valid length.
pub open spec fn spec_content_length(hs: Seq<(Seq<u8>, Seq<u8>)>) -> Option<int> {
    match spec_header_lookup(hs, bytes_of("Content-Length")) {
        None => Some(0),
        Some(v) => spec_parse_len(v),
    }
}

/// What a buffer parses to: the functional model of the whole parser.
///
/// The head must hold a request line of exactly three tokens, a recognized
/// method, a path starting with `/`, and colon-separated header lines closed
/// by a blank line; otherwise the buffer is malformed. A present
/// `Content-Length` must be a valid length, and the buffer must hold that
/// many bytes after the blank line; holding fewer is a truncated body, and
/// the body is exactly those bytes.
pub open spec fn spec_parse(s: Seq<u8>) -> SpecParse {
    match spec_line(s, 0) {
        None => SpecParse::Malformed,
        Some((line, hstart)) => match spec_request_line(line) {
            None => SpecParse::Malformed,
            Some((m, p, v)) => match spec_method(m) {
                None => SpecParse::Malformed,
                Some(method) => {
                    if p.len() == 0 || p[0] != '/' as u8 {
                        SpecParse::Malformed
                    } else {
                        match spec_headers(s, hstart, Seq::empty()) {
                            None => SpecParse::Malformed,
                            Some((hs, bstart)) => match spec_content_length(hs) {
                                None => SpecParse::Malformed,
                                Some(len) => {
                                    if bstart + len <= s.len() {
                                        SpecParse::Req(
                                            ReqModel {
                                                method,
                                                path: p,
                                                version: v,
                                                headers: hs,
                                                body: s.subrange(bstart, bstart + len),
                                            },
                                        )
                                    } else {
                                        SpecParse::Truncated
                                    }
                                },
                            },
                        }
                    }
                },
            },
        },
    }
}

/// The line starting at `pos`, copied out, with the position just past it.
fn take_line(buffer: &[u8], pos: usize) -> (r: Option<(Vec<u8>, usize)>)
    requires
        pos <= buffer@.len(),
    ensures
        match r {
            Some(t) => spec_line(buffer@, pos as int) == Some((t.0@, t.1 as int)) && pos < t.1
                <= buffer@.len(),
            None => spec_line(buffer@, pos as int) is None,
        },
{
    let blen = buffer.len();
    match find_byte(buffer, '\n' as u8, pos) {
        None => None,
        Some(i) => {
            proof {
                lemma_find_bounds(buffer@, '\n' as u8, pos as int);
            }
            assert(i < blen);
            let end = if i > pos && buffer[i - 1] == '\r' as u8 {
                i - 1
            } else {
                i
            };
            Some((slice_to_vec(slice_subrange(buffer, pos, end)), i + 1))
        },
    }
}

/// Splits a request line into its three tokens.
fn split_request_line(line: &[u8]) -> (r: Option<(Vec<u8>, Vec<u8>, Vec<u8>)>)
    ensures
        match r {
            Some(t) => spec_request_line(line@) == Some((t.0@, t.1@, t.2@)),
            None => spec_request_line(line@) is None,
        },
{
    let a1 = skip_ws(line, 0);
    let e1 = token_end(line, a1);
    let a2 = skip_ws(line, e1);
    let e2 = token_end(line, a2);
    let a3 = skip_ws(line, e2);
    let e3 = token_end(line, a3);
    let rest = skip_ws(line, e3);
    if a1 < line.len() && a2 < line.len() && a3 < line.len() && rest >= line.len() {
        Some(
            (
                slice_to_vec(slice_subrange(line, a1, e1)),
                slice_to_vec(slice_subrange(line, a2, e2)),
                slice_to_vec(slice_subrange(line, a3, e3)),
            ),
        )
    } else {
        None
    }
}

/// Splits a header line on its first colon.
fn parse_header_line(line: &[u8]) -> (r: Option<Header>)
    ensures
        match r {
            Some(h) => spec_header_line(line@) == Some((h.name@, h.value@)),
            None => spec_header_line(line@) is None,
        },
{
    match find_byte(line, ':' as u8, 0) {
        None => None,
        Some(i) => {
            proof {
                lemma_find_bounds(line@, ':' as u8, 0);
            }
            let llen = line.len();
            assert(i < llen);
            let name = trim(slice_subrange(line, 0, i));
            let value = trim(slice_subrange(line, i + 1, llen));
            Some(Header { name, value })
        },
    }
}

/// Reads header lines starting at `pos` until the blank line, extending
/// `acc`; returns the headers and the body start.
fn parse_headers(buffer: &[u8], pos: usize, acc: Vec<Header>) -> (r: Option<(Vec<Header>, usize)>)
    requires
        pos <= buffer@.len(),
    ensures
        match r {
            Some(t) => t.1 <= buffer@.len() && spec_headers(buffer@, pos as int, headers_view(acc@))
                == Some((headers_view(t.0@), t.1 as int)),
            None => spec_headers(buffer@, pos as int, headers_view(acc@)) is None,
        },
    decreases buffer@.len() - pos,
{
    match take_line(buffer, pos) {
        None => None,
        Some((line, next)) => {
            if line.len() == 0 {
                Some((acc, next))
            } else {
                match parse_header_line(line.as_slice()) {
                    None => None,
                    Some(h) => {
                        let ghost hpair = (h.name@, h.value@);
                        let ghost acc0 = acc@;
                        let mut acc2 = acc;
                        acc2.push(h);
                        proof {
                            assert(acc2@.drop_last() =~= acc0);
                            assert(headers_view(acc2@) =~= headers_view(acc2@.drop_last()).push(
                                hpair,
                            ));
                        }
                        parse_headers(buffer, next, acc2)
                    },
                }
            }
        },
    }
}

/// The last header of the first `upto` whose name is `name`, searched from
/// the back.
fn header_lookup<'a>(headers: &'a Vec<Header>, upto: usize, name: &[u8]) -> (r: Option<&'a Vec<u8>>)
    requires
        upto <= headers@.len(),
    ensures
        match r {
            Some(v) => spec_header_lookup(headers_view(headers@.subrange(0, upto as int)), name@)
                == Some(v@),
            None => spec_header_lookup(
                headers_view(headers@.subrange(0, upto as int)),
                name@,
            ) is None,
        },
    decreases upto,
{
    proof {
        assert(headers_view(headers@.subrange(0, upto as int)).len() == upto);
    }
    if upto == 0 {
        None
    } else {
        proof {
            assert(headers_view(headers@.subrange(0, upto as int)).last() == (
                headers@[upto - 1].name@,
                headers@[upto - 1].value@,
            ));
            assert(headers_view(headers@.subrange(0, upto as int)).drop_last() =~= headers_view(
                headers@.subrange(0, upto - 1),
            ));
        }
        if bytes_eq(headers[upto - 1].name.as_slice(), name) {
            Some(&headers[upto - 1].value)
        } else {
            header_lookup(headers, upto - 1, name)
        }
    }
}

impl HttpMethod {
    /// The method a byte token denotes.
    pub fn from_bytes(b: &[u8]) -> (r: Option<HttpMethod>)
        ensures
            r == spec_method(b@),
    {
        proof {
            reveal_strlit("GET");
            reveal_strlit("POST");
            reveal_strlit("PUT");
            reveal_strlit("DELETE");
            reveal_strlit("PATCH");
            assert(vstd::string::is_ascii("GET"));
            assert(vstd::string::is_ascii("POST"));
            assert(vstd::string::is_ascii("PUT"));
            assert(vstd::string::is_ascii("DELETE"));
            assert(vstd::string::is_ascii("PATCH"));
        }
        if bytes_eq(b, ascii_vec("GET").as_slice()) {
            Some(HttpMethod::GET)
        } else if bytes_eq(b, ascii_vec("POST").as_slice()) {
            Some(HttpMethod::POST)
        } else if bytes_eq(b, ascii_vec("PUT").as_slice()) {
            Some(HttpMethod::PUT)
        } else if bytes_eq(b, ascii_vec("DELETE").as_slice()) {
            Some(HttpMethod::DELETE)
        } else if bytes_eq(b, ascii_vec("PATCH").as_slice()) {
            Some(HttpMethod::PATCH)
        } else {
            None
        }
    }

    /// The method a string token denotes.
    pub fn from_str(method: &str) -> (r: Option<HttpMethod>)
        ensures
            r == spec_method(vstd::string::StringSliceAdditionalSpecFns::spec_bytes(method)),
    {
        HttpMethod::from_bytes(method.as_bytes())
    }
}

impl HttpRequest {
    /// The value of the named header, the last occurrence winning.
    pub fn header_value(&self, name: &[u8]) -> (r: Option<&Vec<u8>>)
        ensures
            match r {
                Some(v) => spec_header_lookup(self@.headers, name@) == Some(v@),
                None => spec_header_lookup(self@.headers, name@) is None,
            },
    {
        proof {
            assert(self.headers@.subrange(0, self.headers@.len() as int) =~= self.headers@);
        }
        header_lookup(&self.headers, self.headers.len(), name)
    }

    /// Parses one request from the bytes a connection has delivered so far.
    ///
    /// Returns the request exactly as [`spec_parse`] describes it;
    /// `MalformedRequest` when the head is not a well-formed request, and
    /// `TruncatedBody` when the head is fine but fewer than the declared
    /// `Content-Length` bytes follow it (reading more and retrying may then
    /// succeed).
    pub fn from_buffer(buffer: &[u8]) -> (r: Result<HttpRequest, ParseError>)
        ensures
            match r {
                Ok(req) => spec_parse(buffer@) == SpecParse::Req(req@),
                Err(ParseError::MalformedRequest) => spec_parse(buffer@) is Malformed,
                Err(ParseError::TruncatedBody) => spec_parse(buffer@) is Truncated,
            },
    {
        let (line, hstart) = match take_line(buffer, 0) {
            Some(t) => t,
            None => {
                return Err(ParseError::MalformedRequest);
            },
        };
        let (tok_method, path, version) = match split_request_line(line.as_slice()) {
            Some(t) => t,
            None => {
                return Err(ParseError::MalformedRequest);
            },
        };
        let method = match HttpMethod::from_bytes(tok_method.as_slice()) {
            Some(m) => m,
            None => {
                return Err(ParseError::MalformedRequest);
            },
        };
        if path.len() == 0 || path[0] != '/' as u8 {
            return Err(ParseError::MalformedRequest);
        }
        proof {
            assert(headers_view(Seq::<Header>::empty()) =~= Seq::<(Seq<u8>, Seq<u8>)>::empty());
            reveal_strlit("Content-Length");
            assert(vstd::string::is_ascii("Content-Length"));
        }
        let (headers, bstart) = match parse_headers(buffer, hstart, Vec::new()) {
            Some(t) => t,
            None => {
                return Err(ParseError::MalformedRequest);
            },
        };
        proof {
            assert(headers@.subrange(0, headers@.len() as int) =~= headers@);
        }
        let content_length: usize = match header_lookup(
            &headers,
            headers.len(),
            ascii_vec("Content-Length").as_slice(),
        ) {
            None => 0,
            Some(v) => match parse_len(v.as_slice()) {
                Some(n) => n,
                None => {
                    return Err(ParseError::MalformedRequest);
                },
            },
        };
        proof {
            assert(headers@.subrange(0, headers@.len() as int) =~= headers@);
        }
        if content_length > buffer.len() - bstart {
            return Err(ParseError::TruncatedBody);
        }
        let body = slice_to_vec(slice_subrange(buffer, bstart, bstart + content_length));
        Ok(HttpRequest { method, path, version, headers, body })
    }
}

} // verus!
