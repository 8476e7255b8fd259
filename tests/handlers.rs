use std::cell::RefCell;
use std::collections::HashMap;

use http_server_rust::dir::FileSystemAccess;
use http_server_rust::errors::{AppError, ClientError, ServerError};
use http_server_rust::fields::{HeaderField, HeaderMap};
use http_server_rust::handlers::{
    EchoHandler, EmptyHandler, ErrorHandler, FileHandler, NotFoundHandler, UserAgentHandler,
};
use http_server_rust::http::{Method, MimeType, StatusCode};
use http_server_rust::request::Request;
use http_server_rust::response::Response;
use http_server_rust::router::Route;

struct MockDir {
    files: RefCell<HashMap<String, Vec<u8>>>,
    fail_writes: bool,
}

impl MockDir {
    fn with(name: &str, contents: &[u8]) -> Self {
        let mut files = HashMap::new();
        files.insert(name.to_owned(), contents.to_vec());
        MockDir { files: RefCell::new(files), fail_writes: false }
    }
}

impl FileSystemAccess for MockDir {
    fn try_read(&self, src: &str) -> Result<Vec<u8>, AppError> {
        self.files
            .borrow()
            .get(src)
            .cloned()
            .ok_or(AppError::Server(ServerError::Internal))
    }
    fn try_write(&self, src: &str, d: &[u8]) -> Result<(), AppError> {
        if self.fail_writes {
            return Err(AppError::Server(ServerError::Internal));
        }
        self.files.borrow_mut().insert(src.to_owned(), d.to_vec());
        Ok(())
    }
    fn check_dir_exists(&self) -> bool {
        true
    }
    fn try_create(&self) -> Result<(), AppError> {
        Ok(())
    }
}

fn request(method: Method, route: Route, path: &str, parts: &[&str], body: &[u8]) -> Request {
    Request {
        method,
        route,
        path: path.to_owned(),
        path_parts: parts.iter().map(|s| s.to_string()).collect(),
        headers: HeaderMap::new(),
        body: body.to_vec(),
    }
}

#[test]
fn handles_echo() {
    let req = request(Method::Get, Route::Echo, "/echo/hello", &["echo", "hello"], b"hello");
    let resp = EchoHandler::handle(&req).unwrap();
    let expected = Response::builder()
        .status_code(StatusCode::Success)
        .body(Some(b"hello".to_vec()))
        .mime_type(MimeType::PlainText)
        .build()
        .unwrap();
    assert_eq!(&expected.as_bytes(), &resp.as_bytes());
}

#[test]
fn handles_user_agent() {
    let mut req = request(Method::Get, Route::UserAgent, "/user-agent", &["user-agent"], b"Test-UA");
    req.headers.insert("User-Agent".to_owned(), HeaderField::Single("Test-UA".to_owned()));
    let resp = UserAgentHandler::handle(&req).unwrap();
    let expected = Response::builder()
        .status_code(StatusCode::Success)
        .body(Some(b"Test-UA".to_vec()))
        .mime_type(MimeType::PlainText)
        .build()
        .unwrap();
    assert_eq!(&expected.as_bytes(), &resp.as_bytes());
}

#[test]
fn handles_empty() {
    let req = request(Method::Get, Route::Empty, "/", &["/"], b"");
    let resp = EmptyHandler::handle(&req).unwrap();
    let expected = Response::builder()
        .status_code(StatusCode::Success)
        .body(None)
        .mime_type(MimeType::PlainText)
        .build()
        .unwrap();
    assert_eq!(&expected.as_bytes(), &resp.as_bytes());
}

#[test]
fn handles_read_file() {
    let req = request(Method::Get, Route::Files, "/files/test", &["files", "test"], b"");
    let target_dir = MockDir::with("test", b"Hi!");
    let resp = FileHandler::handle(&req, &target_dir).unwrap();
    let expected = Response::builder()
        .status_code(StatusCode::Success)
        .mime_type(MimeType::OctetStream)
        .body(Some(b"Hi!".to_vec()))
        .build()
        .unwrap();
    assert_eq!(&expected.as_bytes(), &resp.as_bytes());
}

#[test]
fn handles_write_file() {
    let req = request(Method::Post, Route::Files, "/files/new", &["files", "new"], b"data");
    let target_dir = MockDir::with("other", b"x");
    let resp = FileHandler::handle(&req, &target_dir).unwrap();
    assert_eq!(b"HTTP/1.1 201 Created\r\n\r\n".to_vec(), resp.as_bytes());
    assert_eq!(Some(b"data".to_vec()), target_dir.files.borrow().get("new").cloned());
}

#[test]
fn handles_error() {
    let resp = ErrorHandler::handle(AppError::Client(ClientError::BadRequest));
    assert_eq!(b"HTTP/1.1 400 Bad Request\r\n\r\n".to_vec(), resp.as_bytes());
    let resp = ErrorHandler::handle(AppError::Server(ServerError::Internal));
    assert_eq!(b"HTTP/1.1 500 Internal Server Error\r\n\r\n".to_vec(), resp.as_bytes());
}

#[test]
fn handle_empty() {
    let req = request(Method::Get, Route::Empty, "/", &[], b"");
    let resp = EmptyHandler::handle(&req).unwrap();
    assert_eq!(resp.as_bytes(), Response::ok().unwrap().as_bytes());
    assert_eq!(b"HTTP/1.1 200 OK\r\n\r\n".to_vec(), resp.as_bytes());
}

#[test]
fn file_missing_is_not_found() {
    let req = request(Method::Get, Route::Files, "/files/missing.txt", &["files", "missing.txt"], b"");
    let target_dir = MockDir::with("test", b"Hi!");
    let err = FileHandler::handle(&req, &target_dir).unwrap_err();
    assert_eq!(AppError::Client(ClientError::NotFound), err);
}

#[test]
fn file_without_name_is_not_found() {
    let req = request(Method::Get, Route::Files, "/files", &["files"], b"");
    let target_dir = MockDir::with("test", b"Hi!");
    assert_eq!(
        AppError::Client(ClientError::NotFound),
        FileHandler::handle(&req, &target_dir).unwrap_err()
    );
}

#[test]
fn failed_write_is_internal_error() {
    let req = request(Method::Post, Route::Files, "/files/new", &["files", "new"], b"data");
    let mut target_dir = MockDir::with("other", b"x");
    target_dir.fail_writes = true;
    assert_eq!(
        AppError::Server(ServerError::Internal),
        FileHandler::handle(&req, &target_dir).unwrap_err()
    );
}

#[test]
fn user_agent_missing_is_bad_request() {
    let req = request(Method::Get, Route::UserAgent, "/user-agent", &["user-agent"], b"");
    assert_eq!(
        AppError::Client(ClientError::BadRequest),
        UserAgentHandler::handle(&req).unwrap_err()
    );
}

#[test]
fn not_found_handler_answers_404() {
    let req = request(Method::Get, Route::Unknown, "/nope", &["nope"], b"");
    let resp = NotFoundHandler::handle(&req).unwrap();
    assert_eq!(b"HTTP/1.1 404 Not Found\r\n\r\n".to_vec(), resp.as_bytes());
}

#[test]
fn store_gets_name_and_body() {
    let req = request(Method::Post, Route::Files, "/files/a.txt", &["files", "a.txt"], b"payload");
    let (name, body) = FileHandler::store_args(&req).unwrap();
    assert_eq!("a.txt", name);
    assert_eq!(b"payload".as_slice(), body);
    let req = request(Method::Post, Route::Files, "/files", &["files"], b"payload");
    assert!(FileHandler::store_args(&req).is_none());
}
