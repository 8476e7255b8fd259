use http_server_rust::fields::{HeaderField, HeaderMap};
use http_server_rust::utils::{get_header_value, get_path_parts};

#[test]
fn utils_returns_correct_path_parts() {
    let path = "/test/path/string";
    let expected = vec!["test", "path", "string"];
    assert_eq!(expected, get_path_parts(path));
}

#[test]
fn utils_returns_empty_vec() {
    let path = "/";
    let expected: Vec<&str> = Vec::new();
    assert_eq!(expected, get_path_parts(path));
}

#[test]
fn utils_returns_correct_values() {
    let mut headers = HeaderMap::new();
    headers.insert("Content-Length".to_owned(), HeaderField::Single("32".to_owned()));
    let expected = Some(String::from("32"));
    assert_eq!(expected, get_header_value("Content-Length", &headers));
    assert_eq!(None, get_header_value("Accept-Encoding", &headers));
}

#[test]
fn utils_handles_enocoding_filtering() {
    let mut headers = HeaderMap::new();
    headers.insert(
        "Accept-Encoding".to_owned(),
        HeaderField::Multiple(vec!["gzip".to_owned(), "brotli".to_owned(), "quux".to_owned()]),
    );
    let expected = Some(String::from("gzip"));
    assert_eq!(expected, get_header_value("Accept-Encoding", &headers));

    let mut headers = HeaderMap::new();
    headers.insert(
        "Accept-Encoding".to_owned(),
        HeaderField::Multiple(vec!["blah".to_owned(), "brotli".to_owned(), "quux".to_owned()]),
    );
    assert_eq!(None, get_header_value("Accept-Encoding", &headers));
}

#[test]
fn functions_returns_correct_path_parts() {
    let path = "/test/path/string";
    let expected = vec!["test", "path", "string"];
    assert_eq!(expected, get_path_parts(path));
}

#[test]
fn functions_returns_empty_vec() {
    let path = "/";
    let expected: Vec<&str> = Vec::new();
    assert_eq!(expected, get_path_parts(path));
}

#[test]
fn functions_returns_correct_values() {
    let mut headers = HeaderMap::new();
    headers.insert("Content-Length".to_owned(), HeaderField::Single("32".to_owned()));
    let expected = Some(String::from("32"));
    assert_eq!(expected, get_header_value("Content-Length", &headers));
    assert_eq!(None, get_header_value("Accept-Encoding", &headers));
}

#[test]
fn functions_handles_enocoding_filtering() {
    let mut headers = HeaderMap::new();
    headers.insert(
        "Accept-Encoding".to_owned(),
        HeaderField::Multiple(vec!["gzip".to_owned(), "brotli".to_owned(), "quux".to_owned()]),
    );
    let expected = Some(String::from("gzip"));
    assert_eq!(expected, get_header_value("Accept-Encoding", &headers));

    let mut headers = HeaderMap::new();
    headers.insert(
        "Accept-Encoding".to_owned(),
        HeaderField::Multiple(vec!["blah".to_owned(), "brotli".to_owned(), "quux".to_owned()]),
    );
    assert_eq!(None, get_header_value("Accept-Encoding", &headers));
}

#[test]
fn path_parts_drop_empty_segments() {
    assert_eq!(vec!["a", "b"], get_path_parts("//a///b/"));
    assert_eq!(vec!["été"], get_path_parts("/été"));
}

#[test]
fn later_header_overrides_earlier() {
    let mut headers = HeaderMap::new();
    headers.insert("X".to_owned(), HeaderField::Single("1".to_owned()));
    headers.insert("X".to_owned(), HeaderField::Single("2".to_owned()));
    assert_eq!(Some(String::from("2")), get_header_value("X", &headers));
    assert_eq!(None, get_header_value("x", &headers));
}

#[test]
fn encoding_filtering_splits_at_commas() {
    let mut headers = HeaderMap::new();
    headers.insert(
        "Accept-Encoding".to_owned(),
        HeaderField::Multiple(vec!["br,gzip".to_owned()]),
    );
    assert_eq!(Some(String::from("gzip")), get_header_value("Accept-Encoding", &headers));
}
