use picoserve::request::get::{FailureKind, ReadFailure};
use picoserve::request::index::{Entry, IndexError};
use picoserve::request::{
    complete, handle, join, lookup, request_target, resolve_path, Found, Outcome, RequestError,
    RequestedMethod, BUFFER,
};
use picoserve::response::SERVER;

#[test]
fn test_method() {
    assert_eq!(
        Some(RequestedMethod::Get),
        RequestedMethod::from_input(b"GET /test.html\r\n")
    );
}

#[test]
fn method_is_the_first_token() {
    assert_eq!(Some(RequestedMethod::Get), RequestedMethod::from_input(b"GET"));
    assert_eq!(Some(RequestedMethod::Get), RequestedMethod::from_input(b"GET "));
    assert_eq!(None, RequestedMethod::from_input(b"GETS / HTTP/1.1\r\n"));
    assert_eq!(None, RequestedMethod::from_input(b"get / HTTP/1.1\r\n"));
    assert_eq!(None, RequestedMethod::from_input(b" GET / HTTP/1.1\r\n"));
    assert_eq!(None, RequestedMethod::from_input(b"POST / HTTP/1.1\r\n"));
    assert_eq!(None, RequestedMethod::from_input(b"GE"));
    assert_eq!(None, RequestedMethod::from_input(b""));
    assert_eq!(None, RequestedMethod::from_input(b"GET\0\0\0"));
}

#[test]
fn target_stands_between_prefix_and_marker() {
    assert_eq!(
        Some(b"test.html".as_ref()),
        request_target(b"GET /test.html HTTP/1.1\r\nHost: x\r\n\r\n")
    );
    assert_eq!(Some(b"".as_ref()), request_target(b"GET / HTTP/1.1\r\n"));
    assert_eq!(Some(b"/".as_ref()), request_target(b"GET // HTTP/1.1\r\n"));
    assert_eq!(Some(b"a b".as_ref()), request_target(b"GET /a b HTTP/1.1"));
    assert_eq!(Some(b"sub/".as_ref()), request_target(b"GET /sub/ HTTP/1.1\r\n"));
}

#[test]
fn short_requests_have_no_target() {
    assert_eq!(None, request_target(b""));
    assert_eq!(None, request_target(b"GET "));
    assert_eq!(None, request_target(b"GET /\r\n"));
    assert_eq!(None, request_target(b"GET /HTTP/1.1\r\n"));
    assert_eq!(None, request_target(b"GET /a\r HTTP/1.1\r\n"));
}

#[test]
fn join_adds_a_slash_where_needed() {
    assert_eq!("/srv/www/a.txt", join("/srv/www", "a.txt"));
    assert_eq!("/srv/www/a.txt", join("/srv/www/", "a.txt"));
    assert_eq!("a.txt", join("", "a.txt"));
    assert_eq!("/srv/www/", join("/srv/www", ""));
    assert_eq!("/srv/www//etc/passwd", join("/srv/www", "/etc/passwd"));
    assert_eq!("/srv/www/../secret", join("/srv/www", "../secret"));
}

#[test]
fn resolve_path_decodes_the_target() {
    assert_eq!("/srv", resolve_path("/srv", b"/"));
    assert_eq!("/srv/", resolve_path("/srv", b""));
    assert_eq!("/srv/caf\u{e9}.txt", resolve_path("/srv", "caf\u{e9}.txt".as_bytes()));
    assert_eq!("/srv/a\u{fffd}b", resolve_path("/srv", b"a\xffb"));
}

#[test]
fn lookup_lists_only_with_indexing_and_a_final_slash() {
    assert!(matches!(lookup(true, "/srv/"), Outcome::Directory { path } if path == "/srv/"));
    assert!(matches!(lookup(false, "/srv/"), Outcome::File { path } if path == "/srv/"));
    assert!(matches!(lookup(true, "/srv"), Outcome::File { path } if path == "/srv"));
    assert!(matches!(lookup(true, ""), Outcome::File { path } if path.is_empty()));
}

fn refusal() -> Vec<u8> {
    format!(
        "HTTP/1.1 405 METHOD NOT ALLOWED\r\nServer: {}\r\nAllow: GET\r\nContent-Type: application/octet-stream\r\nContent-Length: 0\r\n\r\n",
        SERVER
    )
    .into_bytes()
}

#[test]
fn other_methods_are_refused() {
    let mut stream = Vec::new();
    let outcome = handle(&mut stream, Ok(b"POST /a.txt HTTP/1.1\r\n\r\n".as_ref()), "/srv", true);
    assert!(matches!(outcome, Ok(Outcome::Responded)));
    assert_eq!(refusal(), stream);
}

#[test]
fn a_zeroed_buffer_is_refused() {
    let mut stream = Vec::new();
    let outcome = handle(&mut stream, Ok(&[0; BUFFER]), "/srv", false);
    assert!(matches!(outcome, Ok(Outcome::Responded)));
    assert_eq!(refusal(), stream);
}

#[test]
fn get_names_a_file() {
    let mut buf = [0u8; BUFFER];
    let request = b"GET /docs/a.txt HTTP/1.1\r\nHost: localhost\r\n\r\n";
    buf[..request.len()].copy_from_slice(request);
    let mut stream = Vec::new();
    let outcome = handle(&mut stream, Ok(&buf), "/srv", true);
    assert!(matches!(outcome, Ok(Outcome::File { path }) if path == "/srv/docs/a.txt"));
    assert!(stream.is_empty());
}

#[test]
fn get_of_a_directory_is_listed_when_indexing() {
    let mut stream = Vec::new();
    let outcome = handle(&mut stream, Ok(b"GET /docs/ HTTP/1.1\r\n".as_ref()), "/srv", true);
    assert!(matches!(outcome, Ok(Outcome::Directory { path }) if path == "/srv/docs/"));
    let outcome = handle(&mut stream, Ok(b"GET /docs/ HTTP/1.1\r\n".as_ref()), "/srv", false);
    assert!(matches!(outcome, Ok(Outcome::File { path }) if path == "/srv/docs/"));
    let outcome = handle(&mut stream, Ok(b"GET / HTTP/1.1\r\n".as_ref()), "/srv", true);
    assert!(matches!(outcome, Ok(Outcome::Directory { path }) if path == "/srv/"));
    let outcome = handle(&mut stream, Ok(b"GET // HTTP/1.1\r\n".as_ref()), "/srv", true);
    assert!(matches!(outcome, Ok(Outcome::File { path }) if path == "/srv"));
    assert!(stream.is_empty());
}

#[test]
fn the_path_is_trimmed() {
    let mut stream = Vec::new();
    let outcome = handle(&mut stream, Ok(b"GET /docs/  HTTP/1.1\r\n".as_ref()), "/srv", true);
    assert!(matches!(outcome, Ok(Outcome::Directory { path }) if path == "/srv/docs/"));
    let outcome = handle(&mut stream, Ok(b"GET /a.txt\t HTTP/1.1\r\n".as_ref()), " /srv", true);
    assert!(matches!(outcome, Ok(Outcome::File { path }) if path == "/srv/a.txt"));
}

#[test]
fn dot_segments_are_kept() {
    let mut stream = Vec::new();
    let outcome = handle(&mut stream, Ok(b"GET /../secret HTTP/1.1\r\n".as_ref()), "/srv", true);
    assert!(matches!(outcome, Ok(Outcome::File { path }) if path == "/srv/../secret"));
}

#[test]
fn a_get_without_target_is_refused() {
    for request in [
        b"GET".as_ref(),
        b"GET ",
        b"GET /",
        b"GET /\r\n",
        b"GET /HTTP/1.1\r\n",
        b"GET /a\r HTTP/1.1\r\n",
        b"GET /a.txt\r\n",
    ] {
        let mut stream = Vec::new();
        let outcome = handle(&mut stream, Ok(request), "/srv", true);
        assert!(matches!(outcome, Ok(Outcome::Responded)));
        assert_eq!(refusal(), stream);
    }
}

#[test]
fn the_shortest_line_with_a_target_is_served() {
    let mut stream = Vec::new();
    let outcome = handle(&mut stream, Ok(b"GET / HTTP/1.1".as_ref()), "/srv", false);
    assert!(matches!(outcome, Ok(Outcome::File { path }) if path == "/srv/"));
    assert!(stream.is_empty());
}

#[test]
fn a_short_get_that_cannot_be_refused_is_a_write_error() {
    let outcome = handle(&mut Broken, Ok(b"GET /\r\n".as_ref()), "/srv", true);
    assert!(matches!(outcome, Err(RequestError::Write { .. })));
}

struct Broken;

impl picoserve::sink::Sink for Broken {
    fn write_all(&mut self, _bytes: &[u8]) -> Result<(), std::io::Error> {
        Err(std::io::Error::other("broken"))
    }
}

#[test]
fn a_refusal_that_cannot_be_written_is_a_write_error() {
    let outcome = handle(&mut Broken, Ok(b"PUT / HTTP/1.1\r\n".as_ref()), "/srv", true);
    assert!(matches!(outcome, Err(RequestError::Write { .. })));
}

#[test]
fn a_failed_read_is_handed_back_and_nothing_is_written() {
    let mut stream = Vec::new();
    let failure = std::io::Error::new(std::io::ErrorKind::ConnectionReset, "reset");
    match handle(&mut stream, Err(failure), "/srv", true) {
        Err(RequestError::ReadFromStream { source }) => {
            assert_eq!(std::io::ErrorKind::ConnectionReset, source.kind())
        }
        other => panic!("{:?}", other),
    }
    assert!(stream.is_empty());
}

fn response(status: &str, kind: &str, body: &str) -> Vec<u8> {
    format!(
        "HTTP/1.1 {}\r\nServer: {}\r\nContent-Type: {}\r\nContent-Length: {}\r\n\r\n{}",
        status,
        SERVER,
        kind,
        body.len(),
        body
    )
    .into_bytes()
}

#[test]
fn complete_serves_the_file_found() {
    let mut stream = Vec::new();
    let found = Found::File(Ok(b"body { }".to_vec()));
    assert!(complete(&mut stream, "/srv/site.css", found).is_ok());
    assert_eq!(response("200 OK", "text/css", "body { }"), stream);
}

#[test]
fn complete_reports_the_file_not_found() {
    let mut stream = Vec::new();
    let found = Found::File(Err(ReadFailure {
        kind: FailureKind::NotFound,
        os_code: Some(2),
    }));
    assert!(complete(&mut stream, "/srv/site.css", found).is_ok());
    assert_eq!(response("404 NOT FOUND", "application/octet-stream", ""), stream);
}

#[test]
fn complete_serves_the_listing_found() {
    let mut stream = Vec::new();
    let found = Found::Directory(Ok(vec![Entry {
        name: Some("a".to_owned()),
        is_dir: false,
    }]));
    assert!(complete(&mut stream, "/srv/", found).is_ok());
    assert_eq!(
        response("200 OK", "text/plain", "<h2>files</h2><a href='./a'>a</a><br />"),
        stream
    );
}

#[test]
fn complete_reports_the_directory_not_read() {
    let mut stream = Vec::new();
    let found = Found::Directory(Err(IndexError::ReadingDirectory {
        path: "/srv/".to_owned(),
        source: std::io::Error::other("gone"),
    }));
    assert!(complete(&mut stream, "/srv/", found).is_ok());
    assert_eq!(
        response("500 INTERNAL SERVICE ERROR", "application/octet-stream", ""),
        stream
    );
}

#[test]
fn complete_names_what_could_not_be_written() {
    let found = Found::File(Ok(b"x".to_vec()));
    assert!(matches!(
        complete(&mut Broken, "/srv/x", found),
        Err(RequestError::Get { .. })
    ));
    let found = Found::Directory(Ok(Vec::new()));
    assert!(matches!(
        complete(&mut Broken, "/srv/", found),
        Err(RequestError::Index { .. })
    ));
}

fn is_white_space(c: char) -> bool {
    matches!(
        c as u32,
        0x09..=0x0d
            | 0x20
            | 0x85
            | 0xa0
            | 0x1680
            | 0x2000..=0x200a
            | 0x2028
            | 0x2029
            | 0x202f
            | 0x205f
            | 0x3000
    )
}

fn trimmed_by_handle(dir: &str) -> String {
    let mut stream = Vec::new();
    match handle(&mut stream, Ok(b"GET // HTTP/1.1\r\n".as_ref()), dir, false) {
        Ok(Outcome::File { path }) => path,
        other => panic!("{:?}", other),
    }
}

#[test]
fn white_space_is_trimmed_at_both_ends_and_nothing_else() {
    let mut code: u32 = 0;
    while code <= 0x10ffff {
        if let Some(c) = char::from_u32(code) {
            let dir = format!("{}a{}b{}", c, c, c);
            let expected = if is_white_space(c) {
                format!("a{}b", c)
            } else {
                dir.clone()
            };
            assert_eq!(expected, trimmed_by_handle(&dir), "U+{:04X}", code);
        }
        code += if code < 0x3100 { 1 } else { 13 };
    }
    assert_eq!("", trimmed_by_handle(""));
    assert_eq!("", trimmed_by_handle(" \t\u{3000}\n"));
    assert_eq!("a \u{a0} b", trimmed_by_handle("\u{2003} a \u{a0} b\r\n"));
    assert_eq!("\u{200b}a", trimmed_by_handle("\u{200b}a "));
}

#[test]
fn the_failure_of_the_sink_is_handed_back() {
    struct Refusing;
    impl picoserve::sink::Sink for Refusing {
        fn write_all(&mut self, _bytes: &[u8]) -> Result<(), std::io::Error> {
            Err(std::io::Error::new(std::io::ErrorKind::BrokenPipe, "the pipe is broken"))
        }
    }
    match handle(&mut Refusing, Ok(b"PUT / HTTP/1.1\r\n".as_ref()), "/srv", true) {
        Err(RequestError::Write {
            source: picoserve::response::WriteError::Io { source },
        }) => {
            assert_eq!(std::io::ErrorKind::BrokenPipe, source.kind());
            assert_eq!("the pipe is broken", source.to_string());
        }
        other => panic!("{:?}", other),
    }
    match complete(&mut Refusing, "/srv/x", Found::File(Ok(b"x".to_vec()))) {
        Err(RequestError::Get {
            source:
                picoserve::request::get::GetError::Write {
                    source: picoserve::response::WriteError::Io { source },
                },
        }) => assert_eq!("the pipe is broken", source.to_string()),
        other => panic!("{:?}", other),
    }
    match complete(&mut Refusing, "/srv/", Found::Directory(Ok(Vec::new()))) {
        Err(RequestError::Index {
            source:
                IndexError::WritingToStream {
                    source: picoserve::response::WriteError::Io { source },
                    ..
                },
        }) => assert_eq!("the pipe is broken", source.to_string()),
        other => panic!("{:?}", other),
    }
}
