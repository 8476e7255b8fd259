use std::io::Read;

use http_server_rust::errors::{AppError, ClientError, ServerError};
use http_server_rust::fields::HeaderField;
use http_server_rust::handlers::ErrorHandler;
use http_server_rust::http::{MimeType, StatusCode};
use http_server_rust::response::Response;

#[test]
fn client_error_response() {
    let expected = "HTTP/1.1 404 Not Found\r\n\r\n".as_bytes().to_vec();
    assert_eq!(expected, ErrorHandler::handle(AppError::Client(ClientError::NotFound)).as_bytes());
}

#[test]
fn server_error_response() {
    let expected = "HTTP/1.1 501 Not Implemented\r\n\r\n".as_bytes().to_vec();
    assert_eq!(
        expected,
        ErrorHandler::handle(AppError::Server(ServerError::NotImplemented)).as_bytes()
    );
}

#[test]
fn created_response() {
    let expected = "HTTP/1.1 201 Created\r\n\r\n".as_bytes().to_vec();
    assert_eq!(expected, Response::created().unwrap().as_bytes());
}

#[test]
fn ok_response() {
    let expected = "HTTP/1.1 200 OK\r\nContent-Type: text/plain\r\nContent-Length: 3\r\n\r\nabc"
        .as_bytes()
        .to_vec();
    let resp = Response::builder()
        .body(Some(String::from("abc").into_bytes()))
        .mime_type(MimeType::PlainText)
        .build()
        .unwrap();
    assert_eq!(expected, resp.as_bytes());
}

#[test]
fn empty_response() {
    let expected = "HTTP/1.1 200 OK\r\n\r\n".as_bytes().to_vec();
    assert_eq!(expected, Response::ok().unwrap().as_bytes())
}

#[test]
fn bare_statuses_on_the_wire() {
    assert_eq!(b"HTTP/1.1 400 Bad Request\r\n\r\n".to_vec(), Response::client_error().unwrap().as_bytes());
    assert_eq!(
        b"HTTP/1.1 500 Internal Server Error\r\n\r\n".to_vec(),
        Response::server_error().unwrap().as_bytes()
    );
    assert_eq!(b"HTTP/1.1 404 Not Found\r\n\r\n".to_vec(), Response::not_found().unwrap().as_bytes());
}

#[test]
fn content_length_has_several_digits() {
    let body = vec![b'x'; 1234];
    let resp = Response::builder()
        .status_code(StatusCode::Success)
        .body(Some(body.clone()))
        .mime_type(MimeType::OctetStream)
        .build()
        .unwrap();
    let mut expected =
        b"HTTP/1.1 200 OK\r\nContent-Type: application/octet-stream\r\nContent-Length: 1234\r\n\r\n".to_vec();
    expected.extend_from_slice(&body);
    assert_eq!(expected, resp.as_bytes());
}

#[test]
fn empty_body_carries_no_entity_headers() {
    let resp = Response::builder()
        .body(Some(Vec::new()))
        .mime_type(MimeType::PlainText)
        .encoding(Some(&HeaderField::Multiple(vec!["gzip".to_owned()])))
        .build()
        .unwrap();
    assert_eq!(b"HTTP/1.1 200 OK\r\n\r\n".to_vec(), resp.as_bytes());
}

#[test]
fn gzip_body_round_trips() {
    let resp = Response::builder()
        .body(Some(b"abc".to_vec()))
        .mime_type(MimeType::PlainText)
        .encoding(Some(&HeaderField::Multiple(vec!["deflate".to_owned(), "gzip".to_owned()])))
        .build()
        .unwrap();
    let bytes = resp.as_bytes();
    let head_end = bytes.windows(4).position(|w| w == b"\r\n\r\n").unwrap() + 4;
    let head = String::from_utf8(bytes[..head_end].to_vec()).unwrap();
    assert!(head.starts_with("HTTP/1.1 200 OK\r\nContent-Type: text/plain\r\n"));
    assert!(head.contains("Content-Encoding: gzip\r\n"));
    let body = &bytes[head_end..];
    assert!(head.contains(&format!("Content-Length: {}\r\n", body.len())));
    assert_ne!(b"abc".as_slice(), body);
    let mut decoded = String::new();
    flate2::read::GzDecoder::new(body).read_to_string(&mut decoded).unwrap();
    assert_eq!("abc", decoded);
}

#[test]
fn unknown_coding_falls_back_to_identity() {
    let resp = Response::builder()
        .body(Some(b"abc".to_vec()))
        .mime_type(MimeType::PlainText)
        .encoding(Some(&HeaderField::Multiple(vec!["br".to_owned()])))
        .build()
        .unwrap();
    assert_eq!(
        b"HTTP/1.1 200 OK\r\nContent-Type: text/plain\r\nContent-Length: 3\r\n\r\nabc".to_vec(),
        resp.as_bytes()
    );
}

#[test]
fn gzip_token_without_space_is_negotiated() {
    for item in ["br,gzip", "gzip,deflate", "br , gzip "] {
        let resp = Response::builder()
            .body(Some(b"abc".to_vec()))
            .mime_type(MimeType::PlainText)
            .encoding(Some(&HeaderField::Multiple(vec![item.to_owned()])))
            .build()
            .unwrap();
        let bytes = resp.as_bytes();
        let head_end = bytes.windows(4).position(|w| w == b"\r\n\r\n").unwrap() + 4;
        let head = String::from_utf8(bytes[..head_end].to_vec()).unwrap();
        assert!(head.contains("Content-Encoding: gzip\r\n"), "{item}");
        let mut decoded = String::new();
        flate2::read::GzDecoder::new(&bytes[head_end..]).read_to_string(&mut decoded).unwrap();
        assert_eq!("abc", decoded);
    }
}

#[test]
fn gzip_inside_a_longer_token_is_not_negotiated() {
    let resp = Response::builder()
        .body(Some(b"abc".to_vec()))
        .mime_type(MimeType::PlainText)
        .encoding(Some(&HeaderField::Single("x-gzip,gzipped".to_owned())))
        .build()
        .unwrap();
    assert_eq!(
        b"HTTP/1.1 200 OK\r\nContent-Type: text/plain\r\nContent-Length: 3\r\n\r\nabc".to_vec(),
        resp.as_bytes()
    );
}
