//! The router: a pure function from a parsed request to what the server does
//! with it. Most routes finish with a ready response; the file routes come
//! back as a read or write plan, because only the embedding program touches
//! storage — it performs the plan and turns the outcome into a response with
//! [`file_read_response`] or [`file_write_response`].

use vstd::prelude::*;
use vstd::slice::{slice_subrange, slice_to_vec};

use crate::bytes::{ascii_vec, bytes_eq, bytes_of, find_byte, lemma_find_bounds, spec_find};
use crate::request::{spec_header_lookup, Header, HttpMethod, HttpRequest, ReqModel};
use crate::response::{plain_response, spec_response, HttpResponse, HttpStatus, RespModel};

verus! {

/// What the server does with a request: answer at once, or read or write a
/// file under the served directory and answer from the outcome.
pub enum RoutePlan {
    Respond(HttpResponse),
    ReadFile(Vec<u8>),
    WriteFile { name: Vec<u8>, contents: Vec<u8> },
}

/// Mathematical image of a route plan.
pub ghost enum PlanModel {
    Respond(RespModel),
    ReadFile(Seq<u8>),
    WriteFile { name: Seq<u8>, contents: Seq<u8> },
}

impl View for RoutePlan {
    type V = PlanModel;

    open spec fn view(&self) -> PlanModel {
        match self {
            RoutePlan::Respond(r) => PlanModel::Respond(r@),
            RoutePlan::ReadFile(n) => PlanModel::ReadFile(n@),
            RoutePlan::WriteFile { name, contents } => PlanModel::WriteFile {
                name: name@,
                contents: contents@,
            },
        }
    }
}

/// End of the first path segment: the first `/` after the leading one, or the
/// path's end.
pub open spec fn first_seg_end(p: Seq<u8>) -> int {
    match spec_find(p, '/' as u8, 1) {
        Some(i) => i,
        None => p.len() as int,
    }
}

/// The first path segment, between the leading `/` and the next `/` or the
/// path's end.
pub open spec fn first_seg(p: Seq<u8>) -> Seq<u8> {
    p.subrange(1, first_seg_end(p))
}

/// Everything after the first segment's closing `/`; empty when the path
/// stops at the first segment.
pub open spec fn echo_rest(p: Seq<u8>) -> Seq<u8> {
    if first_seg_end(p) < p.len() {
        p.subrange(first_seg_end(p) + 1, p.len() as int)
    } else {
        Seq::empty()
    }
}

/// End of the second path segment.
pub open spec fn second_seg_end(p: Seq<u8>) -> int {
    match spec_find(p, '/' as u8, first_seg_end(p) + 1) {
        Some(i) => i,
        None => p.len() as int,
    }
}

/// The second path segment; empty when the path has none.
pub open spec fn second_seg(p: Seq<u8>) -> Seq<u8> {
    if first_seg_end(p) < p.len() {
        p.subrange(first_seg_end(p) + 1, second_seg_end(p))
    } else {
        Seq::empty()
    }
}

/// Two consecutive dots occur somewhere in `name`.
pub open spec fn has_dotdot(name: Seq<u8>) -> bool {
    exists|i: int|
        0 <= i && i + 1 < name.len() && #[trigger] name[i] == '.' as u8 && name[i + 1]
            == '.' as u8
}

/// A file name the `files` routes may serve: non-empty and free of `..`, so
/// the resolved path cannot escape the served directory. (A segment cannot
/// hold `/`, the splitting already rules that out.)
pub open spec fn safe_file_name(name: Seq<u8>) -> bool {
    name.len() > 0 && !has_dotdot(name)
}

/// A body with `Content-Type: text/plain`, as the echo and user-agent routes
/// answer.
pub open spec fn text_response(body: Seq<u8>) -> RespModel {
    spec_response(
        HttpStatus::Okay,
        seq![(bytes_of("Content-Type"), bytes_of("text/plain"))],
        body,
    )
}

/// File bytes with `Content-Type: application/octet-stream`, as a successful
/// file read answers.
pub open spec fn file_found_response(contents: Seq<u8>) -> RespModel {
    spec_response(
        HttpStatus::Okay,
        seq![(bytes_of("Content-Type"), bytes_of("application/octet-stream"))],
        contents,
    )
}

/// The route table as a function.
///
/// A path not starting with `/` finds no route. The root path answers an
/// empty 200 for any method. `echo` answers the rest of the path verbatim as
/// plain text. `user-agent` answers the `User-Agent` header's exact value,
/// or 500 when the header is absent. `files` turns into a read plan on GET
/// and a write plan carrying the request body on POST, but only for a safe
/// file name; an unsafe name, a missing name or another method finds no
/// route there. Every other first segment answers 404.
pub open spec fn spec_route(req: ReqModel) -> PlanModel {
    let p = req.path;
    if p.len() == 0 || p[0] != '/' as u8 {
        PlanModel::Respond(plain_response(HttpStatus::NotFound))
    } else {
        let seg = first_seg(p);
        if seg.len() == 0 {
            PlanModel::Respond(plain_response(HttpStatus::Okay))
        } else if seg == bytes_of("echo") {
            PlanModel::Respond(text_response(echo_rest(p)))
        } else if seg == bytes_of("user-agent") {
            match spec_header_lookup(req.headers, bytes_of("User-Agent")) {
                Some(v) => PlanModel::Respond(text_response(v)),
                None => PlanModel::Respond(plain_response(HttpStatus::Error)),
            }
        } else if seg == bytes_of("files") {
            let name = second_seg(p);
            if !safe_file_name(name) {
                PlanModel::Respond(plain_response(HttpStatus::NotFound))
            } else if req.method == HttpMethod::GET {
                PlanModel::ReadFile(name)
            } else if req.method == HttpMethod::POST {
                PlanModel::WriteFile { name, contents: req.body }
            } else {
                PlanModel::Respond(plain_response(HttpStatus::NotFound))
            }
        } else {
            PlanModel::Respond(plain_response(HttpStatus::NotFound))
        }
    }
}

/// A response with the given status and no headers or body.
fn plain(status: HttpStatus) -> (r: HttpResponse)
    ensures
        r@ == plain_response(status),
{
    let empty: Vec<u8> = Vec::new();
    proof {
        assert(crate::request::headers_view(Seq::<Header>::empty()) =~= Seq::<
            (Seq<u8>, Seq<u8>),
        >::empty());
    }
    HttpResponse::new(status, Vec::new(), empty.as_slice())
}

/// A plain-text 200 response with the given body.
fn text(body: &[u8]) -> (r: HttpResponse)
    ensures
        r@ == text_response(body@),
{
    proof {
        reveal_strlit("Content-Type");
        reveal_strlit("text/plain");
        assert(vstd::string::is_ascii("Content-Type"));
        assert(vstd::string::is_ascii("text/plain"));
    }
    let mut hs: Vec<Header> = Vec::new();
    hs.push(Header { name: ascii_vec("Content-Type"), value: ascii_vec("text/plain") });
    proof {
        assert(crate::request::headers_view(hs@) =~= seq![
            (bytes_of("Content-Type"), bytes_of("text/plain")),
        ]);
    }
    HttpResponse::new(HttpStatus::Okay, hs, body)
}

/// Whether `name` holds two consecutive dots.
fn contains_dotdot(name: &[u8]) -> (r: bool)
    ensures
        r == has_dotdot(name@),
{
    if name.len() < 2 {
        return false;
    }
    let mut i: usize = 0;
    while i < name.len() - 1
        invariant
            name@.len() >= 2,
            i + 1 <= name@.len(),
            forall|j: int|
                0 <= j < i ==> !(#[trigger] name@[j] == '.' as u8 && name@[j + 1] == '.' as u8),
        decreases name@.len() - i,
    {
        if name[i] == '.' as u8 && name[i + 1] == '.' as u8 {
            return true;
        }
        i = i + 1;
    }
    false
}

/// Routes a parsed request, exactly as [`spec_route`] describes.
pub fn route(req: &HttpRequest) -> (r: RoutePlan)
    ensures
        r@ == spec_route(req@),
{
    if req.path.len() == 0 {
        return RoutePlan::Respond(plain(HttpStatus::NotFound));
    }
    if req.path[0] != '/' as u8 {
        return RoutePlan::Respond(plain(HttpStatus::NotFound));
    }
    let path = req.path.as_slice();
    let plen = req.path.len();
    proof {
        lemma_find_bounds(req.path@, '/' as u8, 1);
    }
    let end = match find_byte(path, '/' as u8, 1) {
        Some(i) => i,
        None => plen,
    };
    let seg = slice_to_vec(slice_subrange(path, 1, end));
    if seg.len() == 0 {
        return RoutePlan::Respond(plain(HttpStatus::Okay));
    }
    proof {
        reveal_strlit("echo");
        reveal_strlit("user-agent");
        reveal_strlit("files");
        reveal_strlit("User-Agent");
        assert(vstd::string::is_ascii("echo"));
        assert(vstd::string::is_ascii("user-agent"));
        assert(vstd::string::is_ascii("files"));
        assert(vstd::string::is_ascii("User-Agent"));
    }
    if bytes_eq(seg.as_slice(), ascii_vec("echo").as_slice()) {
        let rest: Vec<u8> = if end < plen {
            slice_to_vec(slice_subrange(path, end + 1, plen))
        } else {
            Vec::new()
        };
        proof {
            assert(rest@ =~= echo_rest(req.path@));
        }
        return RoutePlan::Respond(text(rest.as_slice()));
    }
    if bytes_eq(seg.as_slice(), ascii_vec("user-agent").as_slice()) {
        match req.header_value(ascii_vec("User-Agent").as_slice()) {
            Some(v) => {
                let body = slice_to_vec(v.as_slice());
                return RoutePlan::Respond(text(body.as_slice()));
            },
            None => {
                return RoutePlan::Respond(plain(HttpStatus::Error));
            },
        }
    }
    if bytes_eq(seg.as_slice(), ascii_vec("files").as_slice()) {
        let name: Vec<u8> = if end < plen {
            proof {
                lemma_find_bounds(req.path@, '/' as u8, end + 1);
            }
            let e2 = match find_byte(path, '/' as u8, end + 1) {
                Some(i) => i,
                None => plen,
            };
            slice_to_vec(slice_subrange(path, end + 1, e2))
        } else {
            Vec::new()
        };
        proof {
            assert(name@ =~= second_seg(req.path@));
        }
        if name.len() == 0 || contains_dotdot(name.as_slice()) {
            return RoutePlan::Respond(plain(HttpStatus::NotFound));
        }
        match req.method {
            HttpMethod::GET => {
                return RoutePlan::ReadFile(name);
            },
            HttpMethod::POST => {
                let contents = slice_to_vec(req.body.as_slice());
                return RoutePlan::WriteFile { name, contents };
            },
            _ => {
                return RoutePlan::Respond(plain(HttpStatus::NotFound));
            },
        }
    }
    RoutePlan::Respond(plain(HttpStatus::NotFound))
}

/// The response to a `files` GET once storage has answered: the file's bytes
/// as an octet stream when it exists, an empty 404 when it does not.
pub fn file_read_response(contents: Option<Vec<u8>>) -> (r: HttpResponse)
    ensures
        match contents {
            Some(c) => r@ == file_found_response(c@),
            None => r@ == plain_response(HttpStatus::NotFound),
        },
{
    match contents {
        Some(c) => {
            proof {
                reveal_strlit("Content-Type");
                reveal_strlit("application/octet-stream");
                assert(vstd::string::is_ascii("Content-Type"));
                assert(vstd::string::is_ascii("application/octet-stream"));
            }
            let mut hs: Vec<Header> = Vec::new();
            hs.push(
                Header {
                    name: ascii_vec("Content-Type"),
                    value: ascii_vec("application/octet-stream"),
                },
            );
            proof {
                assert(crate::request::headers_view(hs@) =~= seq![
                    (bytes_of("Content-Type"), bytes_of("application/octet-stream")),
                ]);
            }
            HttpResponse::new(HttpStatus::Okay, hs, c.as_slice())
        },
        None => plain(HttpStatus::NotFound),
    }
}

/// The response to a `files` POST once storage has answered: an empty 201
/// when the write went through, an empty 500 when it failed.
pub fn file_write_response(ok: bool) -> (r: HttpResponse)
    ensures
        ok ==> r@ == plain_response(HttpStatus::Created),
        !ok ==> r@ == plain_response(HttpStatus::Error),
{
    if ok {
        plain(HttpStatus::Created)
    } else {
        plain(HttpStatus::Error)
    }
}

} // verus!
