use vstd::prelude::*;
use vstd::utf8::{decode_utf8, encode_utf8, valid_utf8};

use crate::errors::{AppError, ClientError, ServerError};
use crate::fields::{lookup, strings_view, FieldView, HeaderField, HeaderMap};
use crate::http::{method_of, Method};
use crate::number::{parse_u64, u64_of};
use crate::router::{route_of, Route};
use crate::scan::{
    find_byte, find_byte_exec, lemma_ascii_cut, lemma_find_byte, lemma_line_end, lemma_skip_space,
    lemma_skip_word, lemma_trim_valid, line_end, line_end_exec, skip_space, skip_space_exec,
    skip_word, skip_word_exec, trim, trim_exec,
};
use crate::split::{
    decode_all, decode_pieces, items_from, segments_from, split_items, split_segments,
};
use crate::text::{ascii, is_word, utf8_string};

verus! {

broadcast use vstd::string::group_string_axioms;

/// A parsed request.
#[derive(Debug, Clone, PartialEq, Eq)]
pub struct Request {
    pub method: Method,
    pub route: Route,
    pub path: String,
    pub path_parts: Vec<String>,
    pub headers: HeaderMap,
    pub body: Vec<u8>,
}

/// What a request holds.
pub struct RequestView {
    pub method: Method,
    pub route: Route,
    pub path: Seq<char>,
    pub path_parts: Seq<Seq<char>>,
    pub headers: Seq<(Seq<char>, FieldView)>,
    pub body: Seq<u8>,
}

impl View for Request {
    type V = RequestView;

    open spec fn view(&self) -> RequestView {
        RequestView {
            method: self.method,
            route: self.route,
            path: self.path@,
            path_parts: strings_view(self.path_parts@),
            headers: self.headers@,
            body: self.body@,
        }
    }
}

/// The index after the line that starts at `i`.
pub open spec fn next_line(d: Seq<u8>, i: int) -> int {
    if line_end(d, i) < d.len() {
        line_end(d, i) + 1
    } else {
        d.len() as int
    }
}

/// The header that a non-empty trimmed header line holds: the name before the
/// first colon and the value after it, both trimmed. The value of
/// `Accept-Encoding` is the list of its items between `", "`.
pub open spec fn entry_of(t: Seq<u8>) -> Option<(Seq<char>, FieldView)> {
    let c = find_byte(t, 58, 0);
    if c >= t.len() {
        None
    } else {
        let kb = trim(t.subrange(0, c));
        let vb = trim(t.subrange(c + 1, t.len() as int));
        Some(
            (
                decode_utf8(kb),
                if kb == ascii("Accept-Encoding"@) {
                    FieldView::Multiple(decode_all(items_from(vb, 0)))
                } else {
                    FieldView::Single(decode_utf8(vb))
                },
            ),
        )
    }
}

/// The header lines from index `pos` of `d` up to the first blank line (or the
/// end of `d`): the headers in order and the index where the body starts.
pub open spec fn headers_from(d: Seq<u8>, pos: int) -> Result<
    (Seq<(Seq<char>, FieldView)>, int),
    AppError,
>
    decreases d.len() - pos,
{
    if 0 <= pos <= d.len() {
        let line = d.subrange(pos, line_end(d, pos));
        let t = trim(line);
        proof {
            lemma_line_end(d, pos);
        }
        if !valid_utf8(line) {
            Err(AppError::Server(ServerError::Internal))
        } else if t.len() == 0 {
            Ok((Seq::empty(), next_line(d, pos)))
        } else {
            match entry_of(t) {
                None => Err(AppError::Client(ClientError::BadRequest)),
                Some(en) => match headers_from(d, next_line(d, pos)) {
                    Ok((rest, b)) => Ok((seq![en] + rest, b)),
                    Err(x) => Err(x),
                },
            }
        }
    } else {
        Err(AppError::Server(ServerError::Internal))
    }
}

/// The body of a request that is not an echo with a segment to echo: as many
/// bytes after the head as `Content-Length` says, or none without that header.
pub open spec fn body_of(d: Seq<u8>, hs: Seq<(Seq<char>, FieldView)>, b: int) -> Result<
    Seq<u8>,
    AppError,
> {
    match lookup(hs, "Content-Length"@) {
        None => Ok(Seq::empty()),
        Some(FieldView::Multiple(_)) => Err(AppError::Client(ClientError::BadRequest)),
        Some(FieldView::Single(v)) => match u64_of(encode_utf8(v)) {
            None => Err(AppError::Client(ClientError::BadRequest)),
            Some(n) => if n > d.len() - b {
                Err(AppError::Server(ServerError::Internal))
            } else {
                Ok(d.subrange(b, b + n))
            },
        },
    }
}

/// What decoding the bytes `d` of a connection gives.
///
/// The request line is split at whitespace into a method and a path. A
/// recognised but unserved method fails with `NotImplemented`; a missing or
/// unknown method and a missing path fail with `BadRequest`. The route comes
/// from the first non-empty segment of the path. A header line without a colon
/// fails with `BadRequest`, and a line that is not UTF-8 with `Internal`, as a
/// failed read does. The body of an echo with a second segment is that
/// segment; otherwise `Content-Length` bytes follow the head, where a
/// non-numeric length fails with `BadRequest` and a stream that ends early
/// with `Internal`.
pub open spec fn parse_model(d: Seq<u8>) -> Result<RequestView, AppError> {
    let line = d.subrange(0, line_end(d, 0));
    let ms = skip_space(line, 0);
    let me = skip_word(line, ms);
    let mtok = if ms < line.len() {
        Some(line.subrange(ms, me))
    } else {
        None
    };
    let ps = skip_space(line, me);
    let pb = line.subrange(ps, skip_word(line, ps));
    let segs = segments_from(pb, 0);
    let route = if segs.len() == 0 {
        Route::Empty
    } else {
        route_of(segs[0])
    };
    if !valid_utf8(line) {
        Err(AppError::Server(ServerError::Internal))
    } else {
        match method_of(mtok) {
            Method::Unsupported(e) => Err(AppError::Server(e)),
            Method::Unknown(e) => Err(AppError::Client(e)),
            method => if ps >= line.len() {
                Err(AppError::Client(ClientError::BadRequest))
            } else {
                match headers_from(d, next_line(d, 0)) {
                    Err(x) => Err(x),
                    Ok((hs, b)) => {
                        let body = if route == Route::Echo && segs.len() > 1 {
                            Ok(segs[1])
                        } else {
                            body_of(d, hs, b)
                        };
                        match body {
                            Err(x) => Err(x),
                            Ok(body) => Ok(
                                RequestView {
                                    method,
                                    route,
                                    path: decode_utf8(pb),
                                    path_parts: decode_all(segs),
                                    headers: hs,
                                    body,
                                },
                            ),
                        }
                    },
                }
            },
        }
    }
}

/// The body of a request starts within the bytes, after the headers.
pub proof fn lemma_headers_bounds(d: Seq<u8>, pos: int)
    requires
        0 <= pos <= d.len(),
    ensures
        headers_from(d, pos) matches Ok((_, b)) ==> pos <= b <= d.len(),
    decreases d.len() - pos,
{
    lemma_line_end(d, pos);
    let t = trim(d.subrange(pos, line_end(d, pos)));
    if valid_utf8(d.subrange(pos, line_end(d, pos))) && t.len() != 0 && entry_of(t) is Some {
        lemma_headers_bounds(d, next_line(d, pos));
    }
}

/// The index after the blank line that ends the head, searching the lines
/// that start at `pos`; `None` while no such line has come in full.
pub open spec fn head_end(d: Seq<u8>, pos: int) -> Option<int>
    decreases d.len() - pos,
{
    if 0 <= pos < d.len() {
        let e = line_end(d, pos);
        proof {
            lemma_line_end(d, pos);
        }
        if e >= d.len() {
            None
        } else if trim(d.subrange(pos, e)).len() == 0 {
            Some(e + 1)
        } else {
            head_end(d, e + 1)
        }
    } else {
        None
    }
}

/// The body length that the head of `d` declares: the value of its
/// `Content-Length` header where that is a number, and 0 otherwise.
pub open spec fn declared_len(d: Seq<u8>) -> nat {
    match headers_from(d, next_line(d, 0)) {
        Ok((hs, _)) => match lookup(hs, "Content-Length"@) {
            Some(FieldView::Single(v)) => match u64_of(encode_utf8(v)) {
                Some(n) => n,
                None => 0,
            },
            _ => 0,
        },
        Err(_) => 0,
    }
}

/// How many bytes of a connection make up the request that starts it: `None`
/// until the request line and the blank line after the headers have come;
/// then the head and the declared body, capped at `usize::MAX`.
pub open spec fn frame_model(d: Seq<u8>) -> Option<nat> {
    if line_end(d, 0) >= d.len() {
        None
    } else {
        match head_end(d, line_end(d, 0) + 1) {
            None => None,
            Some(h) => Some(
                if h + declared_len(d) > usize::MAX {
                    usize::MAX as nat
                } else {
                    (h + declared_len(d)) as nat
                },
            ),
        }
    }
}

/// The characters of valid UTF-8 bytes.
fn decoded(b: &[u8]) -> (r: String)
    requires
        valid_utf8(b@),
    ensures
        r@ == decode_utf8(b@),
{
    match utf8_string(b) {
        Some(s) => s,
        None => String::new(),
    }
}

/// Reads the header lines that start at `pos`, up to the first blank line.
fn read_headers(d: &[u8], pos: usize) -> (r: Result<(HeaderMap, usize), AppError>)
    requires
        pos <= d@.len(),
    ensures
        match r {
            Ok((h, b)) => headers_from(d@, pos as int) == Ok::<_, AppError>((h@, b as int)),
            Err(e) => headers_from(d@, pos as int) == Err::<(Seq<(Seq<char>, FieldView)>, int), _>(e),
        },
        r matches Ok((h, b)) ==> b <= d@.len(),
{
    let mut headers = HeaderMap::new();
    let mut p = pos;
    loop
        invariant
            p <= d@.len(),
            headers_from(d@, pos as int) == match headers_from(d@, p as int) {
                Ok((rest, b)) => Ok((headers@ + rest, b)),
                Err(x) => Err(x),
            },
        decreases d@.len() - p,
    {
        let e = line_end_exec(d, p);
        proof {
            lemma_line_end(d@, p as int);
        }
        let line = vstd::slice::slice_subrange(d, p, e);
        let next = if e < d.len() {
            e + 1
        } else {
            d.len()
        };
        assert(next == next_line(d@, p as int));
        if utf8_string(line).is_none() {
            return Err(AppError::Server(ServerError::Internal));
        }
        let t = trim_exec(line);
        if t.len() == 0 {
            assert(headers@ + Seq::<(Seq<char>, FieldView)>::empty() =~= headers@);
            return Ok((headers, next));
        }
        let c = find_byte_exec(t, 58u8, 0);
        proof {
            lemma_find_byte(t@, 58, 0);
        }
        if c >= t.len() {
            return Err(AppError::Client(ClientError::BadRequest));
        }
        proof {
            lemma_trim_valid(line@);
            lemma_ascii_cut(t@, 0, c as int);
            lemma_ascii_cut(t@, c + 1, t@.len() as int);
            lemma_trim_valid(t@.subrange(0, c as int));
            lemma_trim_valid(t@.subrange(c + 1, t@.len() as int));
        }
        let kb = trim_exec(vstd::slice::slice_subrange(t, 0, c));
        let vb = trim_exec(vstd::slice::slice_subrange(t, c + 1, t.len()));
        let key = decoded(kb);
        proof {
            reveal_strlit("Accept-Encoding");
        }
        let value = if is_word(kb, "Accept-Encoding") {
            let items = split_items(vb);
            HeaderField::Multiple(decode_pieces(&items))
        } else {
            HeaderField::Single(decoded(vb))
        };
        let ghost en = (key@, value@);
        assert(entry_of(t@) == Some(en));
        let ghost old_headers = headers@;
        headers.insert(key, value);
        proof {
            match headers_from(d@, next as int) {
                Ok((rest, b)) => {
                    assert(old_headers + (seq![en] + rest) =~= headers@ + rest);
                },
                Err(x) => {},
            }
        }
        p = next;
    }
}

impl Request {
    /// Decodes the bytes that a connection sent, as `parse_model` says.
    pub fn try_new(data: &[u8]) -> (r: Result<Request, AppError>)
        ensures
            match r {
                Ok(req) => parse_model(data@) == Ok::<_, AppError>(req@),
                Err(e) => parse_model(data@) == Err::<RequestView, _>(e),
            },
    {
        let e0 = line_end_exec(data, 0);
        proof {
            lemma_line_end(data@, 0);
        }
        let line = vstd::slice::slice_subrange(data, 0, e0);
        let ms = skip_space_exec(line, 0);
        proof {
            lemma_skip_space(line@, 0);
        }
        let me = skip_word_exec(line, ms);
        proof {
            lemma_skip_word(line@, ms as int);
        }
        let ps = skip_space_exec(line, me);
        proof {
            lemma_skip_space(line@, me as int);
        }
        let pe = skip_word_exec(line, ps);
        proof {
            lemma_skip_word(line@, ps as int);
        }
        if utf8_string(line).is_none() {
            return Err(AppError::Server(ServerError::Internal));
        }
        let mtok = if ms < line.len() {
            Some(vstd::slice::slice_subrange(line, ms, me))
        } else {
            None
        };
        let method = match Method::from_token(mtok) {
            Method::Unsupported(e) => {
                return Err(AppError::Server(e));
            },
            Method::Unknown(e) => {
                return Err(AppError::Client(e));
            },
            m => m,
        };
        if ps >= line.len() {
            return Err(AppError::Client(ClientError::BadRequest));
        }
        let pb = vstd::slice::slice_subrange(line, ps, pe);
        proof {
            lemma_ascii_cut(line@, ps as int, pe as int);
        }
        let segs = split_segments(pb);
        let route = if segs.len() == 0 {
            Route::Empty
        } else {
            Route::from_segment(segs[0].as_slice())
        };
        let next0 = if e0 < data.len() {
            e0 + 1
        } else {
            data.len()
        };
        let (headers, b) = match read_headers(data, next0) {
            Ok(hb) => hb,
            Err(x) => {
                return Err(x);
            },
        };
        let body = if route == Route::Echo && segs.len() > 1 {
            segs[1].clone()
        } else {
            match read_body(data, &headers, b) {
                Ok(body) => body,
                Err(x) => {
                    return Err(x);
                },
            }
        };
        let path = decoded(pb);
        let path_parts = decode_pieces(&segs);
        Ok(Request { method, route, path, path_parts, headers, body })
    }
}

fn find_head_end(d: &[u8], pos: usize) -> (r: Option<usize>)
    requires
        pos <= d@.len(),
    ensures
        match r {
            Some(h) => head_end(d@, pos as int) == Some(h as int),
            None => head_end(d@, pos as int) is None,
        },
{
    let mut p = pos;
    while p < d.len()
        invariant
            pos <= p <= d@.len(),
            head_end(d@, pos as int) == head_end(d@, p as int),
        decreases d@.len() - p,
    {
        let e = line_end_exec(d, p);
        proof {
            lemma_line_end(d@, p as int);
        }
        if e >= d.len() {
            return None;
        }
        let t = trim_exec(vstd::slice::slice_subrange(d, p, e));
        if t.len() == 0 {
            return Some(e + 1);
        }
        p = e + 1;
    }
    None
}

impl Request {
    /// How many bytes of a connection make up its request, as `frame_model`
    /// says: a reader stops once it holds that many, or the stream ends.
    pub fn frame_len(data: &[u8]) -> (r: Option<usize>)
        ensures
            match r {
                Some(n) => frame_model(data@) == Some(n as nat),
                None => frame_model(data@) is None,
            },
    {
        let e0 = line_end_exec(data, 0);
        proof {
            lemma_line_end(data@, 0);
        }
        if e0 >= data.len() {
            return None;
        }
        let h = match find_head_end(data, e0 + 1) {
            Some(h) => h,
            None => {
                return None;
            },
        };
        proof {
            reveal_strlit("Content-Length");
        }
        let declared: u64 = match read_headers(data, e0 + 1) {
            Ok((headers, _)) => match headers.get("Content-Length") {
                Some(HeaderField::Single(v)) => match parse_u64(v.as_str().as_bytes()) {
                    Some(n) => n,
                    None => 0,
                },
                _ => 0,
            },
            Err(_) => 0,
        };
        if declared as u128 > (usize::MAX - h) as u128 {
            Some(usize::MAX)
        } else {
            Some(h + declared as usize)
        }
    }
}

/// The body after the head, as `Content-Length` says.
fn read_body(d: &[u8], headers: &HeaderMap, b: usize) -> (r: Result<Vec<u8>, AppError>)
    requires
        b <= d@.len(),
    ensures
        match r {
            Ok(body) => body_of(d@, headers@, b as int) == Ok::<_, AppError>(body@),
            Err(e) => body_of(d@, headers@, b as int) == Err::<Seq<u8>, _>(e),
        },
{
    proof {
        reveal_strlit("Content-Length");
    }
    match headers.get("Content-Length") {
        None => Ok(Vec::new()),
        Some(HeaderField::Multiple(_)) => Err(AppError::Client(ClientError::BadRequest)),
        Some(HeaderField::Single(v)) => {
            let bytes = v.as_str().as_bytes();
            match parse_u64(bytes) {
                None => Err(AppError::Client(ClientError::BadRequest)),
                Some(n) => {
                    if n > (d.len() - b) as u64 {
                        Err(AppError::Server(ServerError::Internal))
                    } else {
                        let end = b + n as usize;
                        Ok(vstd::slice::slice_to_vec(vstd::slice::slice_subrange(d, b, end)))
                    }
                },
            }
        },
    }
}

} // verus!
