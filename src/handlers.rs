use vstd::prelude::*;
use vstd::utf8::encode_utf8;

use crate::errors::{AppError, ClientError, ServerError};
use crate::fields::{lookup, FieldView, HeaderField};
use crate::http::{Headers, Method, MimeType, StatusCode};
use crate::request::{Request, RequestView};
use crate::response::{
    accepted_of, bare, built, BuilderView, Response, ResponseView,
};
use crate::dir::FileSystemAccess;

verus! {

broadcast use vstd::string::group_string_axioms;

/// What a handler can come to: a response, or an error to answer with.
pub open spec fn outcome(r: Result<Response, AppError>) -> Result<ResponseView, AppError> {
    match r {
        Ok(x) => Ok(x@),
        Err(e) => Err(e),
    }
}

/// `out` is what handling comes to where `model` is owed: the same, or, where
/// the body was to be gzip-encoded, an `Internal` error from the encoder.
pub open spec fn within(out: Result<ResponseView, AppError>, model: Result<ResponseView, AppError>) -> bool {
    out == model || (model matches Ok(m) && m.gzip && out == Err::<ResponseView, _>(
        AppError::Server(ServerError::Internal),
    ))
}

/// The status that answers an error.
pub open spec fn error_status(e: AppError) -> StatusCode {
    match e {
        AppError::Client(ClientError::BadRequest) => StatusCode::ClientError,
        AppError::Client(ClientError::NotFound) => StatusCode::NotFound,
        AppError::Server(ServerError::NotImplemented) => StatusCode::NotImplemented,
        AppError::Server(ServerError::Internal) => StatusCode::ServerError,
    }
}

/// The response that is written for what handling came to.
pub open spec fn final_view(out: Result<ResponseView, AppError>) -> ResponseView {
    match out {
        Ok(v) => v,
        Err(e) => bare(error_status(e)),
    }
}

/// The codings that a request accepts.
pub open spec fn accepts(req: RequestView) -> Option<Seq<crate::http::Encoding>> {
    accepted_of(lookup(req.headers, "Accept-Encoding"@))
}

/// A `200 OK` response of the given media type and body, encoded as the
/// request negotiates.
pub open spec fn content(req: RequestView, mime: MimeType, body: Seq<u8>) -> ResponseView {
    built(BuilderView { status: None, body, mime: Some(mime), accepted: accepts(req) })
}

/// The name of the file that a `/files/<name>` request is about.
pub open spec fn file_name(req: RequestView) -> Option<Seq<char>> {
    if req.path_parts.len() > 1 {
        Some(req.path_parts[1])
    } else {
        None
    }
}

pub struct EchoHandler;

pub struct EmptyHandler;

pub struct FileHandler;

pub struct UserAgentHandler;

pub struct NotFoundHandler;

pub struct ErrorHandler;

impl Request {
    /// The value of a header, if the request has it.
    pub fn get_header(&self, header: Headers) -> (r: Option<&HeaderField>)
        ensures
            match r {
                Some(f) => lookup(self@.headers, crate::http::header_name(header)) == Some(f@),
                None => lookup(self@.headers, crate::http::header_name(header)) is None,
            },
    {
        self.headers.get(header.name())
    }
}

impl EmptyHandler {
    /// `200 OK` with no body.
    pub fn handle(_req: &Request) -> (r: Result<Response, AppError>)
        ensures
            outcome(r) == Ok::<_, AppError>(bare(StatusCode::Success)),
    {
        Response::ok()
    }
}

impl EchoHandler {
    /// `200 OK` with the request body as plain text, encoded as negotiated.
    pub fn handle(req: &Request) -> (r: Result<Response, AppError>)
        ensures
            within(outcome(r), Ok(content(req@, MimeType::PlainText, req@.body))),
    {
        proof {
            reveal_strlit("Accept-Encoding");
        }
        Response::builder().body(Some(req.body.clone())).encoding(
            req.get_header(Headers::AcceptEncoding),
        ).mime_type(MimeType::PlainText).build()
    }
}

impl UserAgentHandler {
    /// `200 OK` with the `User-Agent` value as plain text, encoded as
    /// negotiated; `BadRequest` where the request has no such header.
    pub fn handle(req: &Request) -> (r: Result<Response, AppError>)
        ensures
            match lookup(req@.headers, "User-Agent"@) {
                Some(FieldView::Single(ua)) => within(
                    outcome(r),
                    Ok(content(req@, MimeType::PlainText, encode_utf8(ua))),
                ),
                _ => r == Err::<Response, _>(AppError::Client(ClientError::BadRequest)),
            },
    {
        proof {
            reveal_strlit("Accept-Encoding");
            reveal_strlit("User-Agent");
        }
        match req.get_header(Headers::UserAgent) {
            Some(HeaderField::Single(ua)) => {
                let body = vstd::slice::slice_to_vec(ua.as_str().as_bytes());
                Response::builder().body(Some(body)).encoding(
                    req.get_header(Headers::AcceptEncoding),
                ).mime_type(MimeType::PlainText).build()
            },
            _ => Err(AppError::Client(ClientError::BadRequest)),
        }
    }
}

impl NotFoundHandler {
    /// `404 Not Found` with no body.
    pub fn handle(_req: &Request) -> (r: Result<Response, AppError>)
        ensures
            outcome(r) == Ok::<_, AppError>(bare(StatusCode::NotFound)),
    {
        Response::not_found()
    }
}

impl ErrorHandler {
    /// The response that answers an error: no body, and the status of the
    /// error.
    pub fn handle(err: AppError) -> (r: Response)
        ensures
            r@ == bare(error_status(err)),
    {
        let status = match err {
            AppError::Client(ClientError::BadRequest) => StatusCode::ClientError,
            AppError::Client(ClientError::NotFound) => StatusCode::NotFound,
            AppError::Server(ServerError::NotImplemented) => StatusCode::NotImplemented,
            AppError::Server(ServerError::Internal) => StatusCode::ServerError,
        };
        Response::status_only(status)
    }
}

/// The answer to `GET` or `POST` on `/files/<name>`, given what the store
/// answered: the bytes read (`None` where reading failed) or whether the
/// write succeeded. A request without a name gets `NotFound`.
pub open spec fn file_answer(req: RequestView, read: Option<Seq<u8>>, wrote: bool) -> Result<
    ResponseView,
    AppError,
> {
    if file_name(req) is None {
        Err(AppError::Client(ClientError::NotFound))
    } else {
        match req.method {
            Method::Get => match read {
                None => Err(AppError::Client(ClientError::NotFound)),
                Some(c) => Ok(content(req, MimeType::OctetStream, c)),
            },
            Method::Post => if wrote {
                Ok(bare(StatusCode::Created))
            } else {
                Err(AppError::Server(ServerError::Internal))
            },
            _ => Err(AppError::Server(ServerError::Internal)),
        }
    }
}

/// What a file request hands to the store for writing: its name and body.
pub open spec fn file_write(req: RequestView) -> Option<(Seq<char>, Seq<u8>)> {
    if req.method == Method::Post && file_name(req) is Some {
        Some((req.path_parts[1], req.body))
    } else {
        None
    }
}

impl FileHandler {
    /// The answer to a read of the store: the bytes as
    /// `application/octet-stream`, encoded as negotiated, or `NotFound`.
    pub fn respond_read(req: &Request, contents: Option<Vec<u8>>) -> (r: Result<Response, AppError>)
        ensures
            within(
                outcome(r),
                match contents {
                    None => Err(AppError::Client(ClientError::NotFound)),
                    Some(c) => Ok(content(req@, MimeType::OctetStream, c@)),
                },
            ),
    {
        proof {
            reveal_strlit("Accept-Encoding");
        }
        match contents {
            None => Err(AppError::Client(ClientError::NotFound)),
            Some(body) => Response::builder().status_code(StatusCode::Success).body(
                Some(body),
            ).encoding(req.get_header(Headers::AcceptEncoding)).mime_type(
                MimeType::OctetStream,
            ).build(),
        }
    }

    /// The answer to a write to the store: `201 Created`, or `Internal`
    /// where the store failed.
    pub fn respond_write(stored: bool) -> (r: Result<Response, AppError>)
        ensures
            outcome(r) == if stored {
                Ok(bare(StatusCode::Created))
            } else {
                Err::<ResponseView, _>(AppError::Server(ServerError::Internal))
            },
    {
        if stored {
            Response::created()
        } else {
            Err(AppError::Server(ServerError::Internal))
        }
    }

    /// What a file request hands the store: the file name, `path_parts[1]`,
    /// and the request body; `None` where the path names no file.
    pub fn store_args(req: &Request) -> (r: Option<(&str, &[u8])>)
        ensures
            match r {
                Some((n, b)) => file_name(req@) == Some(n@) && b@ == req@.body,
                None => file_name(req@) is None,
            },
    {
        if req.path_parts.len() < 2 {
            None
        } else {
            Some((req.path_parts[1].as_str(), req.body.as_slice()))
        }
    }

    /// Serves `GET` and `POST` on `/files/<name>` from `dir`. The name and
    /// bytes handed to the store are exactly those of `store_args`: a `GET`
    /// reads the name, a `POST` writes the body under it (`file_write`).
    pub fn handle<T: FileSystemAccess>(req: &Request, dir: &T) -> (r: Result<Response, AppError>)
        ensures
            exists|read: Option<Seq<u8>>, wrote: bool|
                within(#[trigger] outcome(r), file_answer(req@, read, wrote)),
    {
        let (name, body) = match FileHandler::store_args(req) {
            Some(args) => args,
            None => {
                let r = Err(AppError::Client(ClientError::NotFound));
                assert(within(outcome(r), file_answer(req@, None, false)));
                return r;
            },
        };
        match req.method {
            Method::Get => {
                let contents = match dir.try_read(name) {
                    Ok(c) => Some(c),
                    Err(_) => None,
                };
                let ghost read = match &contents {
                    Some(c) => Some(c@),
                    None => None,
                };
                let r = FileHandler::respond_read(req, contents);
                assert(within(outcome(r), file_answer(req@, read, false)));
                r
            },
            Method::Post => {
                assert(file_write(req@) == Some((name@, body@)));
                let stored = dir.try_write(name, body).is_ok();
                let r = FileHandler::respond_write(stored);
                assert(within(outcome(r), file_answer(req@, None, stored)));
                r
            },
            _ => {
                let r = Err(AppError::Server(ServerError::Internal));
                assert(within(outcome(r), file_answer(req@, None, false)));
                r
            },
        }
    }
}

} // verus!
