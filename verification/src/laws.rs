//! The library's laws: properties that tie the parser, the router and the
//! response constructor together, stated over their models and proved once
//! for all inputs.

use vstd::prelude::*;

use crate::bytes::{
    bytes_of, lemma_digits_val_nonneg, lemma_dec_round_trip, lemma_find_bounds, lemma_find_is,
    lemma_find_none, spec_dec, spec_digits_val, spec_parse_len,
};
use crate::request::{
    lemma_headers_bounds, spec_header_lookup, spec_headers, spec_line, spec_parse, HttpMethod,
    ReqModel, SpecParse,
};
use crate::response::{plain_response, spec_code, HttpStatus};
use crate::router::{
    has_dotdot, spec_route, text_response, PlanModel,
};

verus! {

/// The request a buffer parses to, where it parses to one.
pub open spec fn parsed_request(s: Seq<u8>) -> ReqModel
    recommends
        spec_parse(s) is Req,
{
    match spec_parse(s) {
        SpecParse::Req(m) => m,
        _ => vstd::pervasive::arbitrary(),
    }
}

/// A parsed request's body is exactly as long as its `Content-Length` header
/// declares, and empty when the header is absent — however the buffer was
/// accumulated before parsing.
pub proof fn lemma_body_matches_content_length(s: Seq<u8>)
    requires
        spec_parse(s) is Req,
    ensures
        ({
            let m = parsed_request(s);
            match spec_header_lookup(m.headers, bytes_of("Content-Length")) {
                Some(v) => spec_parse_len(v) == Some(m.body.len() as int),
                None => m.body.len() == 0,
            }
        }),
{
    let m = parsed_request(s);
    lemma_find_bounds(s, '\n' as u8, 0);
    match spec_line(s, 0) {
        Some((line, hstart)) => {
            match spec_headers(s, hstart, Seq::empty()) {
                Some((hs, bstart)) => {
                    lemma_headers_bounds(s, hstart, Seq::empty());
                    assert(m.headers == hs);
                    match spec_header_lookup(hs, bytes_of("Content-Length")) {
                        Some(v) => {
                            let len = spec_parse_len(v)->Some_0;
                            lemma_digits_val_nonneg(v);
                            assert(m.body == s.subrange(bstart, bstart + len));
                            assert(m.body.len() == len);
                        },
                        None => {
                            assert(m.body == s.subrange(bstart, bstart));
                        },
                    }
                },
                None => {
                    assert(false);
                },
            }
        },
        None => {
            assert(false);
        },
    }
}

/// The echo route answers the rest of the path verbatim: for a path
/// `/echo/...`, whatever the method, headers and body, the response carries
/// exactly the bytes after `/echo/`, and — when they are not empty — a
/// `Content-Length` header whose decimal value is exactly their count.
pub proof fn lemma_echo_route(m: HttpMethod, v: Seq<u8>, hs: Seq<(Seq<u8>, Seq<u8>)>, b: Seq<u8>, rest: Seq<u8>)
    ensures
        spec_route(
            ReqModel {
                method: m,
                path: bytes_of("/echo/") + rest,
                version: v,
                headers: hs,
                body: b,
            },
        ) == PlanModel::Respond(text_response(rest)),
        text_response(rest).body == rest,
        rest.len() > 0 ==> spec_header_lookup(text_response(rest).headers, bytes_of("Content-Length"))
            == Some(spec_dec(rest.len() as int)),
        rest.len() > 0 ==> spec_digits_val(spec_dec(rest.len() as int)) == rest.len(),
{
    let p = bytes_of("/echo/") + rest;
    reveal_strlit("/echo/");
    reveal_strlit("echo");

    assert(p.len() == 6 + rest.len());
    assert(p[0] == '/' as u8);
    assert(p[5] == '/' as u8);
    assert(forall|j: int| 1 <= j < 5 ==> p[j] != '/' as u8) by {
        assert(p[1] == 'e' as u8);
        assert(p[2] == 'c' as u8);
        assert(p[3] == 'h' as u8);
        assert(p[4] == 'o' as u8);
    }
    lemma_find_is(p, '/' as u8, 1, 5);
    assert(crate::router::first_seg(p) =~= bytes_of("echo"));
    assert(crate::router::echo_rest(p) =~= rest);
    crate::response::lemma_response_content_length(
        HttpStatus::Okay,
        seq![(bytes_of("Content-Type"), bytes_of("text/plain"))],
        rest,
    );
    if rest.len() > 0 {
        lemma_dec_round_trip(rest.len() as int);
    }
}

/// The user-agent route answers the header's exact value: whenever the
/// request's headers give `User-Agent` the value `ua`, the response body is
/// `ua` itself, byte for byte.
pub proof fn lemma_user_agent_route(m: HttpMethod, v: Seq<u8>, hs: Seq<(Seq<u8>, Seq<u8>)>, b: Seq<u8>, ua: Seq<u8>)
    requires
        spec_header_lookup(hs, bytes_of("User-Agent")) == Some(ua),
    ensures
        spec_route(
            ReqModel { method: m, path: bytes_of("/user-agent"), version: v, headers: hs, body: b },
        ) == PlanModel::Respond(text_response(ua)),
        text_response(ua).body == ua,
{
    let p = bytes_of("/user-agent");
    reveal_strlit("/user-agent");
    reveal_strlit("user-agent");

    assert(p.len() == 11);
    assert(p[0] == '/' as u8);
    assert(forall|j: int| 1 <= j < 11 ==> p[j] != '/' as u8) by {
        assert(p[1] == 'u' as u8);
        assert(p[2] == 's' as u8);
        assert(p[3] == 'e' as u8);
        assert(p[4] == 'r' as u8);
        assert(p[5] == '-' as u8);
        assert(p[6] == 'a' as u8);
        assert(p[7] == 'g' as u8);
        assert(p[8] == 'e' as u8);
        assert(p[9] == 'n' as u8);
        assert(p[10] == 't' as u8);
    }
    lemma_find_none(p, '/' as u8, 1);
    assert(crate::router::first_seg(p) =~= bytes_of("user-agent"));
    reveal_strlit("echo");

    assert(bytes_of("echo").len() == 4);
    assert(crate::router::first_seg(p) != bytes_of("echo"));
}

/// The root path answers an empty 200 whatever the method, the headers and
/// the body.
pub proof fn lemma_root_route(m: HttpMethod, v: Seq<u8>, hs: Seq<(Seq<u8>, Seq<u8>)>, b: Seq<u8>)
    ensures
        spec_route(ReqModel { method: m, path: bytes_of("/"), version: v, headers: hs, body: b })
            == PlanModel::Respond(plain_response(HttpStatus::Okay)),
        plain_response(HttpStatus::Okay).body == Seq::<u8>::empty(),
        spec_code(HttpStatus::Okay) == 200,
{
    let p = bytes_of("/");
    reveal_strlit("/");

    assert(p.len() == 1);
    assert(p[0] == '/' as u8);
    lemma_find_none(p, '/' as u8, 1);
    assert(crate::router::first_seg(p) =~= Seq::<u8>::empty());
}

/// A first segment that is none of the known routes answers 404, whatever
/// the method.
pub proof fn lemma_unknown_route(req: ReqModel)
    requires
        req.path.len() > 0,
        req.path[0] == '/' as u8,
        crate::router::first_seg(req.path).len() > 0,
        crate::router::first_seg(req.path) != bytes_of("echo"),
        crate::router::first_seg(req.path) != bytes_of("user-agent"),
        crate::router::first_seg(req.path) != bytes_of("files"),
    ensures
        spec_route(req) == PlanModel::Respond(plain_response(HttpStatus::NotFound)),
        spec_code(HttpStatus::NotFound) == 404,
{
}

/// A `files` path whose name holds `..` is never served: the route answers
/// 404 and no read or write plan is made, whatever file might exist outside
/// the served directory.
pub proof fn lemma_traversal_rejected(m: HttpMethod, v: Seq<u8>, hs: Seq<(Seq<u8>, Seq<u8>)>, b: Seq<u8>, name: Seq<u8>)
    requires
        has_dotdot(name),
        forall|j: int| 0 <= j < name.len() ==> name[j] != '/' as u8,
    ensures
        spec_route(
            ReqModel {
                method: m,
                path: bytes_of("/files/") + name,
                version: v,
                headers: hs,
                body: b,
            },
        ) == PlanModel::Respond(plain_response(HttpStatus::NotFound)),
{
    let p = bytes_of("/files/") + name;
    reveal_strlit("/files/");
    reveal_strlit("files");
    reveal_strlit("echo");
    reveal_strlit("user-agent");

    assert(p.len() == 7 + name.len());
    assert(p[0] == '/' as u8);
    assert(p[6] == '/' as u8);
    assert(forall|j: int| 1 <= j < 6 ==> p[j] != '/' as u8) by {
        assert(p[1] == 'f' as u8);
        assert(p[2] == 'i' as u8);
        assert(p[3] == 'l' as u8);
        assert(p[4] == 'e' as u8);
        assert(p[5] == 's' as u8);
    }
    lemma_find_is(p, '/' as u8, 1, 6);
    assert(crate::router::first_seg(p) =~= bytes_of("files"));
    assert(bytes_of("echo").len() == 4);
    assert(bytes_of("user-agent").len() == 10);
    assert(crate::router::first_seg(p) != bytes_of("echo"));
    assert(crate::router::first_seg(p) != bytes_of("user-agent"));
    assert(forall|j: int| 7 <= j < p.len() ==> p[j] != '/' as u8) by {
        assert(forall|j: int| 7 <= j < p.len() ==> p[j] == name[j - 7]);
    }
    lemma_find_none(p, '/' as u8, 7);
    assert(crate::router::second_seg(p) =~= name);
    assert(!crate::router::safe_file_name(name));
}

} // verus!
