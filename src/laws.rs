use vstd::prelude::*;
use vstd::utf8::{encode_utf8, valid_utf8};

use crate::errors::{AppError, ClientError, ServerError};
use crate::fields::{lookup, FieldView};
use crate::handlers::{file_write, final_view};
use crate::http::{is_unsupported_method, Method, MimeType, StatusCode};
use crate::request::{parse_model, RequestView};
use crate::http::{token_coding, Encoding};
use crate::response::{accepted_of, bare, codings_all, codings_of, decimal, gzip_of, wire, ResponseView};
use crate::scan::{find_byte, lemma_find_byte, trim, trim_back};
use crate::split::comma_pieces;
use crate::router::{answer, reply, Route};
use crate::scan::{line_end, skip_space, skip_word};
use crate::text::ascii;

verus! {

broadcast use vstd::string::group_string_axioms;

/// A `GET /` request is answered `200 OK` with no body and no entity
/// headers, whatever the store does.
pub proof fn root_is_bare_ok(d: Seq<u8>, read: Option<Seq<u8>>, wrote: bool)
    requires
        parse_model(d) matches Ok(req) && req.method == Method::Get && req.route == Route::Empty,
    ensures
        reply(d, read, wrote) == Ok::<_, AppError>(bare(StatusCode::Success)),
        wire(bare(StatusCode::Success)) == ascii("HTTP/1.1 200 OK\r\n\r\n"@),
{
    reveal_strlit("HTTP/1.1 ");
    reveal_strlit("200 OK");
    reveal_strlit("HTTP/1.1 200 OK\r\n\r\n");
    assert(wire(bare(StatusCode::Success)) =~= ascii("HTTP/1.1 200 OK\r\n\r\n"@));
}

/// A `GET /echo/<s>` request without `Accept-Encoding` is answered `200 OK`
/// with its body as plain text; on the wire a non-empty body comes with its
/// `Content-Type` and `Content-Length` and nothing else.
pub proof fn echo_is_plain_text(d: Seq<u8>, read: Option<Seq<u8>>, wrote: bool)
    requires
        parse_model(d) matches Ok(req) && req.method == Method::Get && req.route == Route::Echo
            && lookup(req.headers, "Accept-Encoding"@) is None,
    ensures
        parse_model(d) matches Ok(req) && {
            let v = ResponseView {
                status: StatusCode::Success,
                mime: Some(MimeType::PlainText),
                body: req.body,
                gzip: false,
            };
            &&& reply(d, read, wrote) == Ok::<_, AppError>(v)
            &&& req.body.len() > 0 ==> wire(v) == ascii(
                "HTTP/1.1 200 OK\r\nContent-Type: text/plain\r\nContent-Length: "@,
            ) + decimal(req.body.len()) + ascii("\r\n\r\n"@) + req.body
        },
{
    reveal_strlit("HTTP/1.1 ");
    reveal_strlit("200 OK");
    reveal_strlit("Content-Type: ");
    reveal_strlit("text/plain");
    reveal_strlit("Content-Length: ");
    reveal_strlit("HTTP/1.1 200 OK\r\nContent-Type: text/plain\r\nContent-Length: ");
    reveal_strlit("\r\n\r\n");
    let req = parse_model(d)->Ok_0;
    let v = ResponseView {
        status: StatusCode::Success,
        mime: Some(MimeType::PlainText),
        body: req.body,
        gzip: false,
    };
    if req.body.len() > 0 {
        assert(wire(v) =~= ascii(
            "HTTP/1.1 200 OK\r\nContent-Type: text/plain\r\nContent-Length: "@,
        ) + decimal(req.body.len()) + ascii("\r\n\r\n"@) + req.body);
    }
}

proof fn lemma_codings_all_has(v: Seq<Seq<char>>, i: int, e: Encoding)
    requires
        0 <= i < v.len(),
        codings_of(v[i]).contains(e),
    ensures
        codings_all(v).contains(e),
    decreases v.len(),
{
    let k = choose|k: int| 0 <= k < codings_of(v[i]).len() && codings_of(v[i])[k] == e;
    if i == v.len() - 1 {
        let a = codings_all(v.drop_last());
        assert((a + codings_of(v.last()))[a.len() + k] == e);
    } else {
        lemma_codings_all_has(v.drop_last(), i, e);
        let a = codings_all(v.drop_last());
        let m = choose|m: int| 0 <= m < a.len() && a[m] == e;
        assert((a + codings_of(v.last()))[m] == e);
    }
}

/// A listed item of `Accept-Encoding` with a token `gzip` between its
/// commas (`br,gzip`, `gzip ,deflate`) makes the client accept gzip.
pub proof fn comma_token_selects_gzip(v: Seq<Seq<char>>, i: int, j: int)
    requires
        0 <= i < v.len(),
        0 <= j < comma_pieces(encode_utf8(v[i]), 0).len(),
        trim(comma_pieces(encode_utf8(v[i]), 0)[j]) == ascii("gzip"@),
    ensures
        codings_all(v).contains(Encoding::Gzip),
        accepted_of(Some(FieldView::Multiple(v))) matches Some(c) && c.contains(Encoding::Gzip),
{
    let pieces = comma_pieces(encode_utf8(v[i]), 0);
    assert(codings_of(v[i])[j] == token_coding(pieces[j]));
    lemma_codings_all_has(v, i, Encoding::Gzip);
}

/// The item `gzip` names gzip and nothing else.
proof fn lemma_gzip_item()
    ensures
        codings_of("gzip"@) == seq![Encoding::Gzip],
{
    reveal_strlit("gzip");
    let a = ascii("gzip"@);
    assert(vstd::utf8::is_ascii_chars("gzip"@));
    vstd::utf8::is_ascii_chars_encode_utf8("gzip"@);
    assert(encode_utf8("gzip"@) =~= a);
    lemma_find_byte(a, 44, 0);
    assert(find_byte(a, 44, 0) == 4);
    assert(a.len() == 4);
    assert(a.subrange(0, 4) =~= a);
    assert(comma_pieces(a, 0) == seq![a.subrange(0, 4)]);
    assert(comma_pieces(a, 0) =~= seq![a]);
    assert(skip_space(a, 0) == 0);
    assert(trim_back(a, 0, 4) == 4);
    assert(trim(a) =~= a);
}

/// A `GET /echo/<s>` request whose `Accept-Encoding` lists `gzip` is answered
/// `200 OK` with the gzip encoding of its body, marked `Content-Encoding:
/// gzip`, where the body is not empty.
pub proof fn echo_gzip(d: Seq<u8>, read: Option<Seq<u8>>, wrote: bool, codings: Seq<Seq<char>>)
    requires
        parse_model(d) matches Ok(req) && req.method == Method::Get && req.route == Route::Echo
            && lookup(req.headers, "Accept-Encoding"@) == Some(FieldView::Multiple(codings))
            && req.body.len() > 0,
        codings.contains("gzip"@),
    ensures
        parse_model(d) matches Ok(req) && reply(d, read, wrote) == Ok::<_, AppError>(
            ResponseView {
                status: StatusCode::Success,
                mime: Some(MimeType::PlainText),
                body: gzip_of(req.body),
                gzip: true,
            },
        ),
{
    let i = choose|i: int| 0 <= i < codings.len() && codings[i] == "gzip"@;
    lemma_gzip_item();
    assert(codings_of(codings[i])[0] == Encoding::Gzip);
    lemma_codings_all_has(codings, i, Encoding::Gzip);
}

/// The body of an echo request with a second path segment is that segment.
pub proof fn echo_body_is_segment(d: Seq<u8>)
    requires
        parse_model(d) matches Ok(req) && req.route == Route::Echo && req.path_parts.len() > 1,
    ensures
        parse_model(d) matches Ok(req) && req.path_parts[1] == vstd::utf8::decode_utf8(req.body),
{
}

/// `GET /user-agent` with a `User-Agent` header and no `Accept-Encoding` is
/// answered `200 OK` with the header's value; without the header it fails
/// with `BadRequest`, written as `400 Bad Request`.
pub proof fn user_agent_echoed(d: Seq<u8>, read: Option<Seq<u8>>, wrote: bool)
    requires
        parse_model(d) matches Ok(req) && req.method == Method::Get && req.route
            == Route::UserAgent,
    ensures
        parse_model(d) matches Ok(req) && match lookup(req.headers, "User-Agent"@) {
            Some(FieldView::Single(ua)) => lookup(req.headers, "Accept-Encoding"@) is None
                ==> reply(d, read, wrote) == Ok::<_, AppError>(
                ResponseView {
                    status: StatusCode::Success,
                    mime: Some(MimeType::PlainText),
                    body: encode_utf8(ua),
                    gzip: false,
                },
            ),
            None => reply(d, read, wrote) == Err::<ResponseView, _>(
                AppError::Client(ClientError::BadRequest),
            ) && final_view(reply(d, read, wrote)) == bare(StatusCode::ClientError),
            _ => true,
        },
{
}

/// Outside an echo with a segment to echo, a decoded request whose
/// `Content-Length` is a number has a body of exactly that many bytes.
pub proof fn body_matches_content_length(d: Seq<u8>, v: Seq<char>)
    requires
        parse_model(d) matches Ok(req) && !(req.route == Route::Echo && req.path_parts.len() > 1)
            && lookup(req.headers, "Content-Length"@) == Some(FieldView::Single(v)),
        crate::number::u64_of(encode_utf8(v)) is Some,
    ensures
        parse_model(d) matches Ok(req) && crate::number::u64_of(encode_utf8(v)) == Some(
            req.body.len(),
        ),
{
    crate::scan::lemma_line_end(d, 0);
    let p0 = crate::request::next_line(d, 0);
    crate::request::lemma_headers_bounds(d, p0);
}

/// A `POST /files/<name>` hands the store its name and body and is answered
/// `201 Created` once the store took them; a later `GET /files/<name>`
/// without `Accept-Encoding`, for which the store gives back those bytes, is
/// answered `200 OK` with them as its body.
pub proof fn files_round_trip(post: RequestView, get: RequestView, read: Option<Seq<u8>>, wrote: bool)
    requires
        post.method == Method::Post,
        post.route == Route::Files,
        post.path_parts.len() > 1,
        get.method == Method::Get,
        get.route == Route::Files,
        get.path_parts.len() > 1,
        get.path_parts[1] == post.path_parts[1],
        lookup(get.headers, "Accept-Encoding"@) is None,
    ensures
        file_write(post) == Some((post.path_parts[1], post.body)),
        answer(post, read, true) == Ok::<_, AppError>(bare(StatusCode::Created)),
        answer(get, Some(post.body), wrote) == Ok::<_, AppError>(
            ResponseView {
                status: StatusCode::Success,
                mime: Some(MimeType::OctetStream),
                body: post.body,
                gzip: false,
            },
        ),
{
}

/// `GET /files/<name>` for a name the store has nothing under is answered
/// `404 Not Found`.
pub proof fn missing_file_not_found(get: RequestView, wrote: bool)
    requires
        get.method == Method::Get,
        get.route == Route::Files,
    ensures
        answer(get, None, wrote) == Err::<ResponseView, _>(AppError::Client(ClientError::NotFound)),
        final_view(answer(get, None, wrote)) == bare(StatusCode::NotFound),
{
}

/// A recognised but unserved method (`DELETE`, `PUT`, ...) is refused with
/// `NotImplemented`, written as `501 Not Implemented`, on every route.
pub proof fn unsupported_method_not_implemented(d: Seq<u8>, read: Option<Seq<u8>>, wrote: bool)
    requires
        ({
            let line = d.subrange(0, line_end(d, 0));
            let ms = skip_space(line, 0);
            valid_utf8(line) && ms < line.len() && is_unsupported_method(
                line.subrange(ms, skip_word(line, ms)),
            )
        }),
    ensures
        reply(d, read, wrote) == Err::<ResponseView, _>(
            AppError::Server(ServerError::NotImplemented),
        ),
        final_view(reply(d, read, wrote)) == bare(StatusCode::NotImplemented),
{
    reveal_strlit("GET");
    reveal_strlit("POST");
    reveal_strlit("PUT");
    reveal_strlit("PATCH");
    reveal_strlit("OPTIONS");
    reveal_strlit("HEAD");
    reveal_strlit("DELETE");
    reveal_strlit("CONNECT");
    reveal_strlit("TRACE");
    let line = d.subrange(0, line_end(d, 0));
    let ms = skip_space(line, 0);
    let t = line.subrange(ms, skip_word(line, ms));
    assert(ascii("GET"@).len() == 3 && ascii("GET"@)[0] == 71);
    assert(ascii("POST"@).len() == 4 && ascii("POST"@)[0] == 80);
    assert(ascii("PUT"@).len() == 3 && ascii("PUT"@)[0] == 80);
    assert(ascii("PATCH"@).len() == 5);
    assert(ascii("OPTIONS"@).len() == 7);
    assert(ascii("HEAD"@).len() == 4 && ascii("HEAD"@)[0] == 72);
    assert(ascii("DELETE"@).len() == 6);
    assert(ascii("CONNECT"@).len() == 7);
    assert(ascii("TRACE"@).len() == 5);
    assert(t != ascii("GET"@) && t != ascii("POST"@));
}

/// A request with a served method on a route that does not exist is
/// answered `404 Not Found`.
pub proof fn unknown_route_not_found(req: RequestView, read: Option<Seq<u8>>, wrote: bool)
    requires
        req.method == Method::Get || req.method == Method::Post,
        req.route == Route::Unknown,
    ensures
        answer(req, read, wrote) == Err::<ResponseView, _>(AppError::Client(ClientError::NotFound)),
        final_view(answer(req, read, wrote)) == bare(StatusCode::NotFound),
{
}

} // verus!
