use vstd::prelude::*;

use crate::errors::{ClientError, ServerError};
use crate::scan::{trim, trim_exec};
use crate::text::{ascii, is_word};

verus! {

broadcast use vstd::string::group_string_axioms;

/// The method of a request.
#[derive(Debug, Clone, Copy, PartialEq, Eq, Structural)]
pub enum Method {
    Get,
    Post,
    /// A token that is no method, or no token at all.
    Unknown(ClientError),
    /// A method of HTTP that this server does not serve.
    Unsupported(ServerError),
}

/// The methods of HTTP that are recognised but not served.
pub open spec fn is_unsupported_method(t: Seq<u8>) -> bool {
    t == ascii("PUT"@) || t == ascii("PATCH"@) || t == ascii("OPTIONS"@) || t == ascii("HEAD"@)
        || t == ascii("DELETE"@) || t == ascii("CONNECT"@) || t == ascii("TRACE"@)
}

/// The method named by the first token of a request line.
pub open spec fn method_of(t: Option<Seq<u8>>) -> Method {
    match t {
        Some(t) => if t == ascii("GET"@) {
            Method::Get
        } else if t == ascii("POST"@) {
            Method::Post
        } else if is_unsupported_method(t) {
            Method::Unsupported(ServerError::NotImplemented)
        } else {
            Method::Unknown(ClientError::BadRequest)
        },
        None => Method::Unknown(ClientError::BadRequest),
    }
}

impl Method {
    /// Classifies the method token of a request line (case-sensitive).
    pub fn from_token(t: Option<&[u8]>) -> (r: Method)
        ensures
            r == method_of(
                match t {
                    Some(s) => Some(s@),
                    None => None,
                },
            ),
    {
        proof {
            reveal_strlit("GET");
            reveal_strlit("POST");
            reveal_strlit("PUT");
            reveal_strlit("PATCH");
            reveal_strlit("OPTIONS");
            reveal_strlit("HEAD");
            reveal_strlit("DELETE");
            reveal_strlit("CONNECT");
            reveal_strlit("TRACE");
        }
        match t {
            Some(s) => {
                if is_word(s, "GET") {
                    Method::Get
                } else if is_word(s, "POST") {
                    Method::Post
                } else if is_word(s, "PUT") || is_word(s, "PATCH") || is_word(s, "OPTIONS")
                    || is_word(s, "HEAD") || is_word(s, "DELETE") || is_word(s, "CONNECT")
                    || is_word(s, "TRACE") {
                    Method::Unsupported(ServerError::NotImplemented)
                } else {
                    Method::Unknown(ClientError::BadRequest)
                }
            },
            None => Method::Unknown(ClientError::BadRequest),
        }
    }
}

/// A content coding named in `Accept-Encoding`.
#[derive(Debug, Clone, Copy, PartialEq, Eq, Structural)]
pub enum Encoding {
    Gzip,
    Unknown,
}

/// The coding that one token of `Accept-Encoding` names: only `gzip`,
/// spaces around it aside, is known.
pub open spec fn token_coding(t: Seq<u8>) -> Encoding {
    if trim(t) == ascii("gzip"@) {
        Encoding::Gzip
    } else {
        Encoding::Unknown
    }
}

impl Encoding {
    /// Classifies one token of `Accept-Encoding`.
    pub fn from_token(t: &[u8]) -> (r: Encoding)
        ensures
            r == token_coding(t@),
    {
        proof {
            reveal_strlit("gzip");
        }
        if is_word(trim_exec(t), "gzip") {
            Encoding::Gzip
        } else {
            Encoding::Unknown
        }
    }
}

/// The status of a response.
#[derive(Debug, Clone, Copy, PartialEq, Eq, Structural)]
pub enum StatusCode {
    Success,
    Created,
    NotFound,
    ServerError,
    ClientError,
    NotImplemented,
}

/// The `"<code> <reason>"` text of a status line.
pub open spec fn status_text(s: StatusCode) -> Seq<char> {
    match s {
        StatusCode::Success => "200 OK"@,
        StatusCode::Created => "201 Created"@,
        StatusCode::ClientError => "400 Bad Request"@,
        StatusCode::NotFound => "404 Not Found"@,
        StatusCode::ServerError => "500 Internal Server Error"@,
        StatusCode::NotImplemented => "501 Not Implemented"@,
    }
}

impl StatusCode {
    /// The `"<code> <reason>"` text of the status line.
    pub fn reason(&self) -> (r: &'static str)
        ensures
            r@ == status_text(*self),
    {
        match self {
            StatusCode::Success => "200 OK",
            StatusCode::Created => "201 Created",
            StatusCode::ClientError => "400 Bad Request",
            StatusCode::NotFound => "404 Not Found",
            StatusCode::ServerError => "500 Internal Server Error",
            StatusCode::NotImplemented => "501 Not Implemented",
        }
    }
}

/// The header names that the server reads or writes.
#[derive(Debug, Clone, Copy, PartialEq, Eq, Hash, Structural)]
pub enum Headers {
    UserAgent,
    ContentLength,
    ContentEncoding,
    AcceptEncoding,
    ContentType,
    Unknown,
}

/// The name of a header as it is written on the wire.
pub open spec fn header_name(h: Headers) -> Seq<char> {
    match h {
        Headers::UserAgent => "User-Agent"@,
        Headers::ContentLength => "Content-Length"@,
        Headers::ContentEncoding => "Content-Encoding"@,
        Headers::AcceptEncoding => "Accept-Encoding"@,
        Headers::ContentType => "Content-Type"@,
        Headers::Unknown => ""@,
    }
}

impl Headers {
    /// The name of the header as it is written on the wire.
    pub fn name(&self) -> (r: &'static str)
        ensures
            r@ == header_name(*self),
    {
        match self {
            Headers::UserAgent => "User-Agent",
            Headers::ContentLength => "Content-Length",
            Headers::ContentEncoding => "Content-Encoding",
            Headers::AcceptEncoding => "Accept-Encoding",
            Headers::ContentType => "Content-Type",
            Headers::Unknown => "",
        }
    }
}

/// The media type of a response body.
#[derive(Debug, Clone, Copy, PartialEq, Eq, Structural)]
pub enum MimeType {
    PlainText,
    OctetStream,
    Unknown,
}

/// The media type as it is written in `Content-Type`.
pub open spec fn mime_text(m: MimeType) -> Seq<char> {
    match m {
        MimeType::PlainText => "text/plain"@,
        MimeType::OctetStream => "application/octet-stream"@,
        MimeType::Unknown => ""@,
    }
}

impl MimeType {
    /// The media type as it is written in `Content-Type`.
    pub fn as_str(&self) -> (r: &'static str)
        ensures
            r@ == mime_text(*self),
    {
        match self {
            MimeType::PlainText => "text/plain",
            MimeType::OctetStream => "application/octet-stream",
            MimeType::Unknown => "",
        }
    }
}

} // verus!
