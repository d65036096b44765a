use picoserve::request::get::{get, serve, FailureKind, GetError, ReadFailure, IS_A_DIRECTORY};
use picoserve::response::SERVER;
use picoserve::sink::Sink;

fn expected(status: &str, kind: &str, body: &[u8]) -> Vec<u8> {
    let mut all = format!(
        "HTTP/1.1 {}\r\nServer: {}\r\nContent-Type: {}\r\nContent-Length: {}\r\n\r\n",
        status,
        SERVER,
        kind,
        body.len()
    )
    .into_bytes();
    all.extend_from_slice(body);
    all
}

fn failure(kind: FailureKind, os_code: Option<i32>) -> Result<Vec<u8>, ReadFailure> {
    Err(ReadFailure { kind, os_code })
}

fn got(path: &str, read: Result<Vec<u8>, ReadFailure>) -> Vec<u8> {
    let mut stream = Vec::new();
    assert!(get(&mut stream, path, read).is_ok());
    stream
}

#[test]
fn a_file_is_served_with_the_type_of_its_extension() {
    assert_eq!(
        expected("200 OK", "text/html", b"<p>hi</p>"),
        got("/srv/www/page.html", Ok(b"<p>hi</p>".to_vec()))
    );
    assert_eq!(
        expected("200 OK", "text/css", b""),
        got("/srv/www/empty.CSS", Ok(Vec::new()))
    );
    assert_eq!(
        expected("200 OK", "application/x-tar", b"\x00\x01"),
        got("backup.2024.tar", Ok(vec![0, 1]))
    );
}

#[test]
fn a_file_without_known_extension_is_served_by_its_content() {
    assert_eq!(
        expected("200 OK", "text/plain", b"hello"),
        got("/srv/www/README", Ok(b"hello".to_vec()))
    );
    assert_eq!(
        expected("200 OK", "application/octet-stream", b"\xff\x00"),
        got("/srv/www/blob", Ok(vec![0xff, 0]))
    );
    assert_eq!(
        expected("200 OK", "text/plain", b"x"),
        got("/srv/www.html/plain", Ok(b"x".to_vec()))
    );
    assert_eq!(
        expected("200 OK", "text/plain", b"x"),
        got("/srv/www/.html", Ok(b"x".to_vec()))
    );
    assert_eq!(
        expected("200 OK", "text/plain", b"fn main() {}"),
        got("/srv/main.rs", Ok(b"fn main() {}".to_vec()))
    );
}

#[test]
fn a_missing_file_is_not_found() {
    let all = got("/srv/www/missing.html", failure(FailureKind::NotFound, Some(2)));
    assert_eq!(expected("404 NOT FOUND", "application/octet-stream", b""), all);
    assert!(all.ends_with(b"Content-Length: 0\r\n\r\n"));
    assert_eq!(
        expected("404 NOT FOUND", "application/octet-stream", b""),
        got("/srv/www/missing", failure(FailureKind::NotFound, None))
    );
    assert_eq!(
        expected("404 NOT FOUND", "application/octet-stream", b""),
        got("/srv/www/missing", failure(FailureKind::NotFound, Some(IS_A_DIRECTORY)))
    );
}

#[test]
fn a_denied_file_is_forbidden() {
    assert_eq!(
        expected("403 FORBIDDEN", "application/octet-stream", b""),
        got("/srv/www/secret.html", failure(FailureKind::PermissionDenied, Some(13)))
    );
    assert_eq!(
        expected("403 FORBIDDEN", "application/octet-stream", b""),
        got("/srv/www/secret.html", failure(FailureKind::PermissionDenied, None))
    );
}

#[test]
fn a_directory_is_forbidden() {
    assert_eq!(21, IS_A_DIRECTORY);
    assert_eq!(
        expected("403 FORBIDDEN", "application/octet-stream", b""),
        got("/srv/www", failure(FailureKind::Other, Some(IS_A_DIRECTORY)))
    );
}

#[test]
fn any_other_failure_is_an_internal_error() {
    assert_eq!(
        expected("500 INTERNAL SERVICE ERROR", "application/octet-stream", b""),
        got("/srv/www/a.html", failure(FailureKind::Other, None))
    );
    assert_eq!(
        expected("500 INTERNAL SERVICE ERROR", "application/octet-stream", b""),
        got("/srv/www/a.html", failure(FailureKind::Other, Some(5)))
    );
}

#[test]
fn serve_takes_the_extension_as_given() {
    let mut stream = Vec::new();
    assert!(serve(&mut stream, Some("json"), Ok(b"[]".to_vec())).is_ok());
    assert_eq!(expected("200 OK", "application/json", b"[]"), stream);
    let mut stream = Vec::new();
    assert!(serve(&mut stream, None, Ok(b"[]".to_vec())).is_ok());
    assert_eq!(expected("200 OK", "text/plain", b"[]"), stream);
    let mut stream = Vec::new();
    assert!(serve(&mut stream, Some("json"), failure(FailureKind::NotFound, None)).is_ok());
    assert_eq!(expected("404 NOT FOUND", "application/octet-stream", b""), stream);
}

struct Closed;

impl Sink for Closed {
    fn write_all(&mut self, _bytes: &[u8]) -> Result<(), std::io::Error> {
        Err(std::io::Error::other("closed"))
    }
}

#[test]
fn a_response_that_cannot_be_written_is_a_write_error() {
    let result = get(&mut Closed, "/srv/a.txt", Ok(b"a".to_vec()));
    assert!(matches!(result, Err(GetError::Write { .. })));
    let result = get(&mut Closed, "/srv/a.txt", failure(FailureKind::NotFound, None));
    assert!(matches!(result, Err(GetError::Write { .. })));
}
