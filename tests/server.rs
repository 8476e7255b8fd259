use std::cell::RefCell;
use std::collections::HashMap;
use std::io::Read;

use http_server_rust::dir::FileSystemAccess;
use http_server_rust::errors::{AppError, ServerError};
use http_server_rust::pool::{JobQueue, Message};
use http_server_rust::router::{Operation, Router};

struct MemoryStore {
    files: RefCell<HashMap<String, Vec<u8>>>,
}

impl MemoryStore {
    fn new() -> Self {
        MemoryStore { files: RefCell::new(HashMap::new()) }
    }
}

impl FileSystemAccess for MemoryStore {
    fn try_read(&self, src: &str) -> Result<Vec<u8>, AppError> {
        self.files.borrow().get(src).cloned().ok_or(AppError::Server(ServerError::Internal))
    }
    fn try_write(&self, src: &str, d: &[u8]) -> Result<(), AppError> {
        self.files.borrow_mut().insert(src.to_owned(), d.to_vec());
        Ok(())
    }
    fn check_dir_exists(&self) -> bool {
        true
    }
    fn try_create(&self) -> Result<(), AppError> {
        Ok(())
    }
}

fn serve(router: &Router<MemoryStore>, input: &[u8]) -> Vec<u8> {
    router.route(input)
}

#[test]
fn echo_scenario() {
    let router = Router::new(MemoryStore::new());
    assert_eq!(
        b"HTTP/1.1 200 OK\r\nContent-Type: text/plain\r\nContent-Length: 3\r\n\r\nabc".to_vec(),
        serve(&router, b"GET /echo/abc HTTP/1.1\r\n\r\n")
    );
}

#[test]
fn echo_gzip_scenario() {
    let router = Router::new(MemoryStore::new());
    let out = serve(&router, b"GET /echo/abc HTTP/1.1\r\nAccept-Encoding: gzip\r\n\r\n");
    let head_end = out.windows(4).position(|w| w == b"\r\n\r\n").unwrap() + 4;
    let head = String::from_utf8(out[..head_end].to_vec()).unwrap();
    assert!(head.starts_with("HTTP/1.1 200 OK\r\n"));
    assert!(head.contains("Content-Encoding: gzip\r\n"));
    let mut decoded = String::new();
    flate2::read::GzDecoder::new(&out[head_end..]).read_to_string(&mut decoded).unwrap();
    assert_eq!("abc", decoded);
}

#[test]
fn unknown_route_scenario() {
    let router = Router::new(MemoryStore::new());
    assert_eq!(b"HTTP/1.1 404 Not Found\r\n\r\n".to_vec(), serve(&router, b"GET /nope HTTP/1.1\r\n\r\n"));
    assert_eq!(b"HTTP/1.1 404 Not Found\r\n\r\n".to_vec(), serve(&router, b"POST /nope HTTP/1.1\r\n\r\n"));
}

#[test]
fn file_round_trip_scenario() {
    let router = Router::new(MemoryStore::new());
    assert_eq!(
        b"HTTP/1.1 201 Created\r\n\r\n".to_vec(),
        serve(&router, b"POST /files/test.txt HTTP/1.1\r\nContent-Length: 5\r\n\r\nhello")
    );
    let out = serve(&router, b"GET /files/test.txt HTTP/1.1\r\n\r\n");
    assert_eq!(
        b"HTTP/1.1 200 OK\r\nContent-Type: application/octet-stream\r\nContent-Length: 5\r\n\r\nhello"
            .to_vec(),
        out
    );
}

#[test]
fn report_round_trip() {
    let router = Router::new(MemoryStore::new());
    serve(&router, b"POST /files/report.txt HTTP/1.1\r\nContent-Length: 7\r\n\r\nB bytes");
    let out = serve(&router, b"GET /files/report.txt HTTP/1.1\r\n\r\n");
    assert!(out.starts_with(b"HTTP/1.1 200 OK\r\n"));
    assert!(out.ends_with(b"\r\n\r\nB bytes"));
}

#[test]
fn missing_file_scenario() {
    let router = Router::new(MemoryStore::new());
    assert_eq!(
        b"HTTP/1.1 404 Not Found\r\n\r\n".to_vec(),
        serve(&router, b"GET /files/missing.txt HTTP/1.1\r\n\r\n")
    );
}

#[test]
fn root_scenario() {
    let router = Router::new(MemoryStore::new());
    assert_eq!(b"HTTP/1.1 200 OK\r\n\r\n".to_vec(), serve(&router, b"GET / HTTP/1.1\r\nHost: x\r\n\r\n"));
}

#[test]
fn user_agent_scenarios() {
    let router = Router::new(MemoryStore::new());
    assert_eq!(
        b"HTTP/1.1 200 OK\r\nContent-Type: text/plain\r\nContent-Length: 6\r\n\r\nfoobar".to_vec(),
        serve(&router, b"GET /user-agent HTTP/1.1\r\nUser-Agent: foobar\r\n\r\n")
    );
    assert_eq!(
        b"HTTP/1.1 400 Bad Request\r\n\r\n".to_vec(),
        serve(&router, b"GET /user-agent HTTP/1.1\r\n\r\n")
    );
}

#[test]
fn unsupported_method_scenario() {
    let router = Router::new(MemoryStore::new());
    for input in [
        b"DELETE / HTTP/1.1\r\n\r\n".as_slice(),
        b"PUT /files/a HTTP/1.1\r\n\r\n".as_slice(),
        b"PATCH /echo/x HTTP/1.1\r\n\r\n".as_slice(),
    ] {
        assert_eq!(b"HTTP/1.1 501 Not Implemented\r\n\r\n".to_vec(), serve(&router, input));
    }
    assert_eq!(
        b"HTTP/1.1 400 Bad Request\r\n\r\n".to_vec(),
        serve(&router, b"BREW /pot HTTP/1.1\r\n\r\n")
    );
}

#[test]
fn operation_table() {
    let req = http_server_rust::request::Request::try_new(b"POST /echo/x HTTP/1.1\r\n\r\n".as_slice()).unwrap();
    assert_eq!(Operation::Unknown, Operation::from_request(&req));
    let req = http_server_rust::request::Request::try_new(b"POST /files/x HTTP/1.1\r\n\r\n".as_slice()).unwrap();
    assert_eq!(Operation::PostFileContents, Operation::from_request(&req));
}

#[test]
fn pool_hands_out_every_job_once() {
    let mut queue: JobQueue<u32> = JobQueue::new(3);
    for job in 0..10u32 {
        assert!(queue.execute(job));
    }
    queue.shutdown();
    let mut jobs = Vec::new();
    let mut stops = 0;
    while let Some(message) = queue.next() {
        match message {
            Message::NewJob(j) => {
                assert_eq!(0, stops);
                jobs.push(j);
            }
            Message::Terminate => stops += 1,
        }
    }
    assert_eq!((0..10).collect::<Vec<u32>>(), jobs);
    assert_eq!(3, stops);
}

#[test]
fn pool_refuses_jobs_after_shutdown() {
    let mut queue: JobQueue<u32> = JobQueue::new(2);
    assert!(queue.execute(1));
    queue.shutdown();
    assert!(!queue.is_running());
    assert!(!queue.execute(2));
    queue.shutdown();
    assert!(matches!(queue.next(), Some(Message::NewJob(1))));
    assert!(matches!(queue.next(), Some(Message::Terminate)));
    assert!(matches!(queue.next(), Some(Message::Terminate)));
    assert!(queue.next().is_none());
}

#[test]
fn echo_gzip_without_space_scenario() {
    let router = Router::new(MemoryStore::new());
    let out = serve(&router, b"GET /echo/abc HTTP/1.1\r\nAccept-Encoding: deflate,gzip\r\n\r\n");
    let head_end = out.windows(4).position(|w| w == b"\r\n\r\n").unwrap() + 4;
    let head = String::from_utf8(out[..head_end].to_vec()).unwrap();
    assert!(head.contains("Content-Encoding: gzip\r\n"));
    let mut decoded = String::new();
    flate2::read::GzDecoder::new(&out[head_end..]).read_to_string(&mut decoded).unwrap();
    assert_eq!("abc", decoded);
}
