use http_server_rust::errors::{AppError, ClientError, ServerError};
use http_server_rust::fields::{HeaderField, HeaderMap};
use http_server_rust::http::{Headers, Method};
use http_server_rust::request::Request;
use http_server_rust::router::Route;

#[test]
fn handles_http_request() {
    let req = b"GET /echo/abc HTTP/1.1\r\n\r\n";
    let expected = Request {
        method: Method::Get,
        route: Route::Echo,
        path: "/echo/abc".to_owned(),
        path_parts: vec!["echo".to_owned(), "abc".to_owned()],
        body: b"abc".to_vec(),
        headers: HeaderMap::new(),
    };
    assert_eq!(expected, Request::try_new(req.as_slice()).unwrap());
}

#[test]
fn handles_bad_request() {
    let req = b"/echo/abc\r\n\r\n";
    assert_eq!(
        AppError::Client(ClientError::BadRequest),
        Request::try_new(req.as_slice()).unwrap_err()
    );
}

#[test]
fn unsupported_method_is_not_implemented() {
    let req = b"DELETE /files/a HTTP/1.1\r\n\r\n";
    assert_eq!(
        AppError::Server(ServerError::NotImplemented),
        Request::try_new(req.as_slice()).unwrap_err()
    );
}

#[test]
fn missing_path_is_bad_request() {
    assert_eq!(
        AppError::Client(ClientError::BadRequest),
        Request::try_new(b"GET\r\n\r\n".as_slice()).unwrap_err()
    );
    assert_eq!(
        AppError::Client(ClientError::BadRequest),
        Request::try_new(b"".as_slice()).unwrap_err()
    );
}

#[test]
fn header_without_colon_is_bad_request() {
    let req = b"GET / HTTP/1.1\r\nno colon here\r\n\r\n";
    assert_eq!(
        AppError::Client(ClientError::BadRequest),
        Request::try_new(req.as_slice()).unwrap_err()
    );
}

#[test]
fn non_numeric_length_is_bad_request() {
    let req = b"POST /files/a HTTP/1.1\r\nContent-Length: five\r\n\r\nhello";
    assert_eq!(
        AppError::Client(ClientError::BadRequest),
        Request::try_new(req.as_slice()).unwrap_err()
    );
}

#[test]
fn short_body_is_internal_error() {
    let req = b"POST /files/a HTTP/1.1\r\nContent-Length: 10\r\n\r\nhello";
    assert_eq!(
        AppError::Server(ServerError::Internal),
        Request::try_new(req.as_slice()).unwrap_err()
    );
}

#[test]
fn invalid_utf8_line_is_internal_error() {
    let req = b"GET /\xff HTTP/1.1\r\n\r\n";
    assert_eq!(
        AppError::Server(ServerError::Internal),
        Request::try_new(req.as_slice()).unwrap_err()
    );
}

#[test]
fn body_is_read_by_content_length() {
    let req = b"POST /files/test.txt HTTP/1.1\r\nContent-Length: 5\r\n\r\nhello world";
    let parsed = Request::try_new(req.as_slice()).unwrap();
    assert_eq!(Method::Post, parsed.method);
    assert_eq!(Route::Files, parsed.route);
    assert_eq!(vec!["files".to_owned(), "test.txt".to_owned()], parsed.path_parts);
    assert_eq!(b"hello".to_vec(), parsed.body);
}

#[test]
fn headers_are_trimmed_split_and_overridden() {
    let req = b"GET /user-agent HTTP/1.1\r\nHost: localhost:4221\r\nUser-Agent: first\r\nUser-Agent:  second \r\nAccept-Encoding: gzip, br\r\n\r\n";
    let parsed = Request::try_new(req.as_slice()).unwrap();
    assert_eq!(
        Some(&HeaderField::Single("localhost:4221".to_owned())),
        parsed.headers.get("Host")
    );
    assert_eq!(
        Some(&HeaderField::Single("second".to_owned())),
        parsed.get_header(Headers::UserAgent)
    );
    assert_eq!(
        Some(&HeaderField::Multiple(vec!["gzip".to_owned(), "br".to_owned()])),
        parsed.get_header(Headers::AcceptEncoding)
    );
    assert_eq!(Route::UserAgent, parsed.route);
    assert!(parsed.body.is_empty());
}

#[test]
fn root_path_has_no_segments() {
    let parsed = Request::try_new(b"GET / HTTP/1.1\r\n\r\n".as_slice()).unwrap();
    assert_eq!(Route::Empty, parsed.route);
    assert!(parsed.path_parts.is_empty());
}

#[test]
fn length_with_plus_sign_is_accepted() {
    let req = b"POST /files/a HTTP/1.1\r\nContent-Length: +2\r\n\r\nhi";
    assert_eq!(b"hi".to_vec(), Request::try_new(req.as_slice()).unwrap().body);
}

#[test]
fn length_beyond_u64_is_bad_request() {
    let req = b"POST /files/a HTTP/1.1\r\nContent-Length: 18446744073709551616\r\n\r\nhi";
    assert_eq!(
        AppError::Client(ClientError::BadRequest),
        Request::try_new(req.as_slice()).unwrap_err()
    );
}

#[test]
fn frame_len_waits_for_head_and_body() {
    assert_eq!(None, Request::frame_len(b"GET / HTTP/1.1\r\nHost: x\r\n".as_slice()));
    assert_eq!(None, Request::frame_len(b"GET / HTT".as_slice()));
    assert_eq!(Some(18), Request::frame_len(b"GET / HTTP/1.1\r\n\r\n".as_slice()));
    let post = b"POST /files/a HTTP/1.1\r\nContent-Length: 5\r\n\r\nhe";
    assert_eq!(Some(post.len() + 3), Request::frame_len(post.as_slice()));
}
