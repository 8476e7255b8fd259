use vstd::prelude::*;

use crate::errors::{AppError, ServerError};
use crate::fields::HeaderField;
use crate::http::{mime_text, status_text, token_coding, Encoding, MimeType, StatusCode};
use crate::split::{bytes_view, comma_pieces, split_commas};
use vstd::utf8::encode_utf8;
use crate::text::ascii;

verus! {

broadcast use vstd::string::group_string_axioms;

/// The gzip member that flate2 writes for `data` at the default level.
pub uninterp spec fn gzip_of(data: Seq<u8>) -> Seq<u8>;

/// Relies on flate2's `GzEncoder` at the default compression level, writing
/// into a `Vec`: `finish` hands back the gzip member of `data`, which always
/// holds a header and a trailer. A failed write comes back as `None`.
#[verifier::external_body]
fn gzip(data: &[u8]) -> (r: Option<Vec<u8>>)
    ensures
        r matches Some(v) ==> v@ == gzip_of(data@) && v@.len() > 0,
{
    let mut encoder = flate2::write::GzEncoder::new(Vec::new(), flate2::Compression::default());
    match std::io::Write::write_all(&mut encoder, data) {
        Ok(()) => encoder.finish().ok(),
        Err(_) => None,
    }
}

/// A response, ready to be written.
#[derive(Debug, Clone, PartialEq, Eq)]
pub struct Response {
    status_code: StatusCode,
    body: Option<Vec<u8>>,
    mime_type: Option<MimeType>,
    encoding: Option<Encoding>,
}

/// What a response holds: its status, media type, body (empty where it has
/// none) and whether the body is gzip-encoded.
pub struct ResponseView {
    pub status: StatusCode,
    pub mime: Option<MimeType>,
    pub body: Seq<u8>,
    pub gzip: bool,
}

pub open spec fn body_view(b: Option<Vec<u8>>) -> Seq<u8> {
    match b {
        Some(v) => v@,
        None => Seq::empty(),
    }
}

impl View for Response {
    type V = ResponseView;

    closed spec fn view(&self) -> ResponseView {
        ResponseView {
            status: self.status_code,
            mime: self.mime_type,
            body: body_view(self.body),
            gzip: self.encoding == Some(Encoding::Gzip),
        }
    }
}

/// A response with a status and nothing else.
pub open spec fn bare(status: StatusCode) -> ResponseView {
    ResponseView { status, mime: None, body: Seq::empty(), gzip: false }
}

/// The decimal digits of `n`.
pub open spec fn decimal(n: nat) -> Seq<u8>
    decreases n,
{
    if n < 10 {
        seq![(48 + n) as u8]
    } else {
        decimal(n / 10).push((48 + n % 10) as u8)
    }
}

pub open spec fn crlf() -> Seq<u8> {
    seq![13u8, 10u8]
}

/// The bytes of a response on the wire: the status line, then, only where
/// the body is not empty, `Content-Type`, `Content-Length` and, for a gzip
/// body, `Content-Encoding`; then a blank line and the body.
pub open spec fn wire(r: ResponseView) -> Seq<u8> {
    let head = ascii("HTTP/1.1 "@) + ascii(status_text(r.status)) + crlf();
    if r.body.len() == 0 {
        head + crlf()
    } else {
        let mime = match r.mime {
            Some(m) => m,
            None => MimeType::Unknown,
        };
        head + ascii("Content-Type: "@) + ascii(mime_text(mime)) + crlf() + ascii(
            "Content-Length: "@,
        ) + decimal(r.body.len()) + crlf() + (if r.gzip {
            ascii("Content-Encoding: gzip"@) + crlf()
        } else {
            Seq::empty()
        }) + crlf() + r.body
    }
}

/// Appends the bytes of an ASCII string.
fn append_ascii(out: &mut Vec<u8>, s: &str)
    requires
        vstd::string::is_ascii(s),
    ensures
        final(out)@ == old(out)@ + ascii(s@),
{
    let w = crate::text::word_bytes(s);
    let ghost start = out@;
    let mut i: usize = 0;
    while i < w.len()
        invariant
            i <= w@.len(),
            w@ == ascii(s@),
            out@ == start + w@.subrange(0, i as int),
        decreases w@.len() - i,
    {
        out.push(w[i]);
        assert(out@ =~= start + w@.subrange(0, i + 1));
        i += 1;
    }
    assert(w@.subrange(0, i as int) =~= w@);
}

/// Appends the decimal digits of `n`.
fn append_decimal(out: &mut Vec<u8>, n: u64)
    ensures
        final(out)@ == old(out)@ + decimal(n as nat),
    decreases n,
{
    if n >= 10 {
        append_decimal(out, n / 10);
    }
    let d = (48 + n % 10) as u8;
    out.push(d);
    assert(out@ =~= old(out)@ + decimal(n as nat));
}

fn append_crlf(out: &mut Vec<u8>)
    ensures
        final(out)@ == old(out)@ + crlf(),
{
    out.push(13u8);
    out.push(10u8);
    assert(out@ =~= old(out)@ + crlf());
}

impl Response {
    /// Starts a response.
    pub fn builder() -> (r: ResponseBuilder)
        ensures
            r@ == empty_builder(),
    {
        ResponseBuilder::new()
    }

    /// A response with a status and no body.
    pub fn status_only(status_code: StatusCode) -> (r: Response)
        ensures
            r@ == bare(status_code),
    {
        Response { status_code, body: None, mime_type: None, encoding: None }
    }

    /// `200 OK` with no body.
    pub fn ok() -> (r: Result<Response, AppError>)
        ensures
            r matches Ok(x) && x@ == bare(StatusCode::Success),
    {
        ResponseBuilder::new().build()
    }

    /// `404 Not Found` with no body.
    pub fn not_found() -> (r: Result<Response, AppError>)
        ensures
            r matches Ok(x) && x@ == bare(StatusCode::NotFound),
    {
        ResponseBuilder::new().status_code(StatusCode::NotFound).build()
    }

    /// `201 Created` with no body.
    pub fn created() -> (r: Result<Response, AppError>)
        ensures
            r matches Ok(x) && x@ == bare(StatusCode::Created),
    {
        ResponseBuilder::new().status_code(StatusCode::Created).build()
    }

    /// `400 Bad Request` with no body.
    pub fn client_error() -> (r: Result<Response, AppError>)
        ensures
            r matches Ok(x) && x@ == bare(StatusCode::ClientError),
    {
        ResponseBuilder::new().status_code(StatusCode::ClientError).build()
    }

    /// `500 Internal Server Error` with no body.
    pub fn server_error() -> (r: Result<Response, AppError>)
        ensures
            r matches Ok(x) && x@ == bare(StatusCode::ServerError),
    {
        ResponseBuilder::new().status_code(StatusCode::ServerError).build()
    }

    /// The bytes of the response on the wire.
    pub fn as_bytes(&self) -> (r: Vec<u8>)
        ensures
            r@ == wire(self@),
    {
        proof {
            reveal_strlit("HTTP/1.1 ");
            reveal_strlit("200 OK");
            reveal_strlit("201 Created");
            reveal_strlit("400 Bad Request");
            reveal_strlit("404 Not Found");
            reveal_strlit("500 Internal Server Error");
            reveal_strlit("501 Not Implemented");
            reveal_strlit("Content-Type: ");
            reveal_strlit("text/plain");
            reveal_strlit("application/octet-stream");
            reveal_strlit("");
            reveal_strlit("Content-Length: ");
            reveal_strlit("Content-Encoding: gzip");
        }
        let mut out: Vec<u8> = Vec::new();
        append_ascii(&mut out, "HTTP/1.1 ");
        append_ascii(&mut out, self.status_code.reason());
        append_crlf(&mut out);
        let empty: Vec<u8> = Vec::new();
        let content = match &self.body {
            Some(b) => b,
            None => &empty,
        };
        if content.len() == 0 {
            append_crlf(&mut out);
            return out;
        }
        let mime = match self.mime_type {
            Some(m) => m,
            None => MimeType::Unknown,
        };
        append_ascii(&mut out, "Content-Type: ");
        append_ascii(&mut out, mime.as_str());
        append_crlf(&mut out);
        append_ascii(&mut out, "Content-Length: ");
        append_decimal(&mut out, content.len() as u64);
        append_crlf(&mut out);
        if self.encoding == Some(Encoding::Gzip) {
            append_ascii(&mut out, "Content-Encoding: gzip");
            append_crlf(&mut out);
        }
        append_crlf(&mut out);
        let ghost before = out@;
        let mut i: usize = 0;
        while i < content.len()
            invariant
                i <= content@.len(),
                out@ == before + content@.subrange(0, i as int),
            decreases content@.len() - i,
        {
            out.push(content[i]);
            assert(out@ =~= before + content@.subrange(0, i + 1));
            i += 1;
        }
        assert(content@.subrange(0, i as int) =~= content@);
        assert(out@ =~= wire(self@));
        out
    }
}

/// A response under construction.
#[derive(Debug, Clone, PartialEq, Eq)]
pub struct ResponseBuilder {
    status_code: Option<StatusCode>,
    body: Option<Vec<u8>>,
    mime_type: Option<MimeType>,
    encoding: Option<Vec<Encoding>>,
}

/// What a builder holds so far.
pub struct BuilderView {
    pub status: Option<StatusCode>,
    pub body: Seq<u8>,
    pub mime: Option<MimeType>,
    pub accepted: Option<Seq<Encoding>>,
}

impl View for ResponseBuilder {
    type V = BuilderView;

    closed spec fn view(&self) -> BuilderView {
        BuilderView {
            status: self.status_code,
            body: body_view(self.body),
            mime: self.mime_type,
            accepted: match self.encoding {
                Some(v) => Some(v@),
                None => None,
            },
        }
    }
}

pub open spec fn empty_builder() -> BuilderView {
    BuilderView { status: None, body: Seq::empty(), mime: None, accepted: None }
}

/// The codings that one listed item of `Accept-Encoding` names: its tokens
/// between commas.
pub open spec fn codings_of(s: Seq<char>) -> Seq<Encoding> {
    comma_pieces(encode_utf8(s), 0).map_values(|t: Seq<u8>| token_coding(t))
}

/// The codings that the listed items name, in order.
pub open spec fn codings_all(v: Seq<Seq<char>>) -> Seq<Encoding>
    decreases v.len(),
{
    if v.len() == 0 {
        Seq::empty()
    } else {
        codings_all(v.drop_last()) + codings_of(v.last())
    }
}

/// The codings that an `Accept-Encoding` value names: every token between
/// commas of every listed item.
pub open spec fn accepted_of(f: Option<crate::fields::FieldView>) -> Option<Seq<Encoding>> {
    match f {
        None => None,
        Some(crate::fields::FieldView::Single(s)) => Some(codings_of(s)),
        Some(crate::fields::FieldView::Multiple(v)) => Some(codings_all(v)),
    }
}

/// The codings that one listed item names.
fn item_codings(s: &String, out: &mut Vec<Encoding>)
    ensures
        final(out)@ == old(out)@ + codings_of(s@),
{
    let pieces = split_commas(s.as_str().as_bytes());
    let ghost start = out@;
    let mut i: usize = 0;
    while i < pieces.len()
        invariant
            i <= pieces@.len(),
            bytes_view(pieces@) == comma_pieces(encode_utf8(s@), 0),
            out@ == start + bytes_view(pieces@).subrange(0, i as int).map_values(
                |t: Seq<u8>| token_coding(t),
            ),
        decreases pieces@.len() - i,
    {
        out.push(Encoding::from_token(pieces[i].as_slice()));
        assert(bytes_view(pieces@).subrange(0, i + 1) =~= bytes_view(pieces@).subrange(
            0,
            i as int,
        ).push(pieces@[i as int]@));
        assert(out@ =~= start + bytes_view(pieces@).subrange(0, i + 1).map_values(
            |t: Seq<u8>| token_coding(t),
        ));
        i += 1;
    }
    assert(bytes_view(pieces@).subrange(0, i as int) =~= bytes_view(pieces@));
}

/// The codings that the listed items of `Accept-Encoding` name.
pub fn accepted_codings(names: &Vec<String>) -> (r: Vec<Encoding>)
    ensures
        r@ == codings_all(crate::fields::strings_view(names@)),
{
    let mut out: Vec<Encoding> = Vec::new();
    let mut i: usize = 0;
    while i < names.len()
        invariant
            i <= names@.len(),
            out@ == codings_all(crate::fields::strings_view(names@.subrange(0, i as int))),
        decreases names@.len() - i,
    {
        item_codings(&names[i], &mut out);
        assert(crate::fields::strings_view(names@.subrange(0, i + 1)).drop_last()
            =~= crate::fields::strings_view(names@.subrange(0, i as int)));
        i += 1;
    }
    assert(names@.subrange(0, i as int) =~= names@);
    out
}

/// Whether a list of codings holds gzip.
pub fn lists_gzip(v: &Vec<Encoding>) -> (r: bool)
    ensures
        r == v@.contains(Encoding::Gzip),
{
    let mut found = false;
    let mut i: usize = 0;
    while i < v.len()
        invariant
            i <= v@.len(),
            found == exists|j: int| 0 <= j < i && v@[j] == Encoding::Gzip,
        decreases v@.len() - i,
    {
        if v[i] == Encoding::Gzip {
            found = true;
        }
        i += 1;
    }
    found
}

/// Whether negotiation selects gzip for a body: the client accepts it and
/// the body is not empty. A client that lists no coding known here gets the
/// body unencoded rather than an error.
pub open spec fn selects_gzip(accepted: Option<Seq<Encoding>>, body: Seq<u8>) -> bool {
    body.len() > 0 && (accepted matches Some(v) && v.contains(Encoding::Gzip))
}

/// The response that a builder gives once the body is encoded as
/// negotiation selects: status `200 OK` unless another was set.
pub open spec fn built(b: BuilderView) -> ResponseView {
    let gz = selects_gzip(b.accepted, b.body);
    ResponseView {
        status: match b.status {
            Some(s) => s,
            None => StatusCode::Success,
        },
        mime: b.mime,
        body: if gz {
            gzip_of(b.body)
        } else {
            b.body
        },
        gzip: gz,
    }
}

impl ResponseBuilder {
    pub fn new() -> (r: ResponseBuilder)
        ensures
            r@ == empty_builder(),
    {
        ResponseBuilder { status_code: None, body: None, mime_type: None, encoding: None }
    }

    pub fn status_code(self, status_code: StatusCode) -> (r: ResponseBuilder)
        ensures
            r@ == (BuilderView { status: Some(status_code), ..self@ }),
    {
        ResponseBuilder { status_code: Some(status_code), ..self }
    }

    pub fn mime_type(self, mime_type: MimeType) -> (r: ResponseBuilder)
        ensures
            r@ == (BuilderView { mime: Some(mime_type), ..self@ }),
    {
        ResponseBuilder { mime_type: Some(mime_type), ..self }
    }

    pub fn body(self, body: Option<Vec<u8>>) -> (r: ResponseBuilder)
        ensures
            r@ == (BuilderView { body: body_view(body), ..self@ }),
    {
        ResponseBuilder { body, ..self }
    }

    /// Records the codings that the client accepts, from its
    /// `Accept-Encoding` header: every token between commas of every listed
    /// item, spaces around it aside. Without the header nothing is recorded.
    pub fn encoding(self, accept: Option<&HeaderField>) -> (r: ResponseBuilder)
        ensures
            r@ == (BuilderView {
                accepted: match accept {
                    Some(f) => accepted_of(Some(f@)),
                    None => self@.accepted,
                },
                ..self@
            }),
    {
        match accept {
            None => self,
            Some(HeaderField::Single(s)) => {
                let mut v: Vec<Encoding> = Vec::new();
                item_codings(s, &mut v);
                assert(v@ =~= codings_of(s@));
                ResponseBuilder { encoding: Some(v), ..self }
            },
            Some(HeaderField::Multiple(names)) => {
                ResponseBuilder { encoding: Some(accepted_codings(names)), ..self }
            },
        }
    }

    /// The response, with the body gzip-encoded where negotiation selects
    /// it. Fails with `Internal` only where the encoder fails.
    pub fn build(self) -> (r: Result<Response, AppError>)
        ensures
            r matches Ok(x) ==> x@ == built(self@),
            r matches Ok(x) ==> (x@.gzip ==> x@.body.len() > 0),
            r is Err ==> r == Err::<Response, _>(AppError::Server(ServerError::Internal))
                && selects_gzip(self@.accepted, self@.body),
            !selects_gzip(self@.accepted, self@.body) ==> r is Ok,
    {
        let status_code = match self.status_code {
            Some(s) => s,
            None => StatusCode::Success,
        };
        let wants = match &self.encoding {
            Some(v) => lists_gzip(v),
            None => false,
        };
        let empty = match &self.body {
            Some(b) => b.len() == 0,
            None => true,
        };
        if wants && !empty {
            let compressed = match &self.body {
                Some(b) => gzip(b.as_slice()),
                None => None,
            };
            match compressed {
                Some(c) => Ok(
                    Response {
                        status_code,
                        body: Some(c),
                        mime_type: self.mime_type,
                        encoding: Some(Encoding::Gzip),
                    },
                ),
                None => Err(AppError::Server(ServerError::Internal)),
            }
        } else {
            Ok(Response { status_code, body: self.body, mime_type: self.mime_type, encoding: None })
        }
    }
}

} // verus!
