use vstd::prelude::*;

use crate::dir::FileSystemAccess;
use crate::errors::{AppError, ClientError, ServerError};
use crate::fields::{lookup, FieldView};
use crate::handlers::{
    content, file_answer, final_view, outcome, within, EchoHandler,
    EmptyHandler, ErrorHandler, FileHandler, UserAgentHandler,
};
use crate::http::{Method, MimeType, StatusCode};
use crate::request::{parse_model, Request, RequestView};
use crate::response::{bare, wire, ResponseView};
use crate::text::{ascii, is_word};
use vstd::utf8::encode_utf8;

verus! {

broadcast use vstd::string::group_string_axioms;

/// The resource kind named by the first segment of a path.
#[derive(Debug, Clone, Copy, PartialEq, Eq, Hash, Structural)]
pub enum Route {
    /// The path has no segment: `/`.
    Empty,
    Echo,
    UserAgent,
    Files,
    Unknown,
}

/// The route that a first path segment names (case-sensitive).
pub open spec fn route_of(seg: Seq<u8>) -> Route {
    if seg == ascii("echo"@) {
        Route::Echo
    } else if seg == ascii("user-agent"@) {
        Route::UserAgent
    } else if seg == ascii("files"@) {
        Route::Files
    } else {
        Route::Unknown
    }
}

impl Route {
    /// Classifies the first segment of a path.
    pub fn from_segment(seg: &[u8]) -> (r: Route)
        ensures
            r == route_of(seg@),
    {
        proof {
            reveal_strlit("echo");
            reveal_strlit("user-agent");
            reveal_strlit("files");
        }
        if is_word(seg, "echo") {
            Route::Echo
        } else if is_word(seg, "user-agent") {
            Route::UserAgent
        } else if is_word(seg, "files") {
            Route::Files
        } else {
            Route::Unknown
        }
    }
}

/// The operation that a method and a route select.
#[derive(Debug, Clone, Copy, PartialEq, Eq, Structural)]
pub enum Operation {
    GetEcho,
    GetUserAgent,
    GetFileContents,
    PostFileContents,
    GetEmpty,
    Unsupported,
    Unknown,
}

/// The dispatch table: any pair not listed is `Unknown`, and an unserved
/// method is `Unsupported` on every route.
pub open spec fn operation(m: Method, r: Route) -> Operation {
    match (m, r) {
        (Method::Get, Route::Echo) => Operation::GetEcho,
        (Method::Get, Route::Files) => Operation::GetFileContents,
        (Method::Post, Route::Files) => Operation::PostFileContents,
        (Method::Get, Route::UserAgent) => Operation::GetUserAgent,
        (Method::Get, Route::Empty) => Operation::GetEmpty,
        (Method::Unsupported(_), _) => Operation::Unsupported,
        _ => Operation::Unknown,
    }
}

impl Operation {
    /// The operation that a request's method and route select.
    pub fn from_request(req: &Request) -> (r: Operation)
        ensures
            r == operation(req.method, req.route),
    {
        match (req.method, req.route) {
            (Method::Get, Route::Echo) => Operation::GetEcho,
            (Method::Get, Route::Files) => Operation::GetFileContents,
            (Method::Post, Route::Files) => Operation::PostFileContents,
            (Method::Get, Route::UserAgent) => Operation::GetUserAgent,
            (Method::Get, Route::Empty) => Operation::GetEmpty,
            (Method::Unsupported(_), _) => Operation::Unsupported,
            _ => Operation::Unknown,
        }
    }
}

/// The answer to a parsed request, given what the store answered where the
/// request reads or writes a file. An unknown route gets `NotFound`.
pub open spec fn answer(req: RequestView, read: Option<Seq<u8>>, wrote: bool) -> Result<
    ResponseView,
    AppError,
> {
    match operation(req.method, req.route) {
        Operation::GetEcho => Ok(content(req, MimeType::PlainText, req.body)),
        Operation::GetUserAgent => match lookup(req.headers, "User-Agent"@) {
            Some(FieldView::Single(ua)) => Ok(content(req, MimeType::PlainText, encode_utf8(ua))),
            _ => Err(AppError::Client(ClientError::BadRequest)),
        },
        Operation::GetFileContents => file_answer(req, read, wrote),
        Operation::PostFileContents => file_answer(req, read, wrote),
        Operation::GetEmpty => Ok(bare(StatusCode::Success)),
        Operation::Unsupported => Err(AppError::Server(ServerError::NotImplemented)),
        Operation::Unknown => Err(AppError::Client(ClientError::NotFound)),
    }
}

/// The answer to the bytes of a connection: a decoding error, or the answer
/// to the request.
pub open spec fn reply(d: Seq<u8>, read: Option<Seq<u8>>, wrote: bool) -> Result<
    ResponseView,
    AppError,
> {
    match parse_model(d) {
        Err(e) => Err(e),
        Ok(req) => answer(req, read, wrote),
    }
}

/// Serves connections: decodes a request, dispatches it, and encodes the one
/// response, an error response where anything failed.
pub struct Router<T: FileSystemAccess> {
    dir: T,
}

impl<T: FileSystemAccess> Router<T> {
    pub fn new(dir: T) -> (r: Router<T>)
        ensures
            r.dir() == dir,
    {
        Router { dir }
    }

    pub closed spec fn dir(&self) -> T {
        self.dir
    }

    /// The bytes to write back for the bytes that a connection sent.
    pub fn route(&self, data: &[u8]) -> (r: Vec<u8>)
        ensures
            exists|read: Option<Seq<u8>>, wrote: bool, out: Result<ResponseView, AppError>|
                #![trigger reply(data@, read, wrote), final_view(out)]
                within(out, reply(data@, read, wrote)) && r@ == wire(final_view(out)),
    {
        let req = match Request::try_new(data) {
            Ok(req) => req,
            Err(e) => {
                let resp = ErrorHandler::handle(e);
                let bytes = resp.as_bytes();
                let ghost out = Err::<ResponseView, AppError>(e);
                assert(within(out, reply(data@, None, false)));
                assert(bytes@ == wire(final_view(out)));
                return bytes;
            },
        };
        assert(parse_model(data@) == Ok::<_, AppError>(req@));
        let handled = match Operation::from_request(&req) {
            Operation::GetEcho => EchoHandler::handle(&req),
            Operation::GetUserAgent => UserAgentHandler::handle(&req),
            Operation::GetFileContents | Operation::PostFileContents => FileHandler::handle(
                &req,
                &self.dir,
            ),
            Operation::GetEmpty => EmptyHandler::handle(&req),
            Operation::Unsupported => Err(AppError::Server(ServerError::NotImplemented)),
            Operation::Unknown => Err(AppError::Client(ClientError::NotFound)),
        };
        let ghost out = outcome(handled);
        let ghost (read, wrote) = if operation(req.method, req.route) == Operation::GetFileContents
            || operation(req.method, req.route) == Operation::PostFileContents {
            choose|read: Option<Seq<u8>>, wrote: bool|
                within(#[trigger] outcome(handled), file_answer(req@, read, wrote))
        } else {
            (None, false)
        };
        assert(within(out, reply(data@, read, wrote)));
        let bytes = match handled {
            Ok(resp) => resp.as_bytes(),
            Err(e) => ErrorHandler::handle(e).as_bytes(),
        };
        assert(bytes@ == wire(final_view(out)));
        bytes
    }
}

} // verus!
