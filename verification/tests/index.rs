use picoserve::request::index::{index, list, write_anchor, Entry, IndexError};
use picoserve::response::SERVER;
use picoserve::sink::Sink;

fn file(name: &str) -> Entry {
    Entry {
        name: Some(name.to_owned()),
        is_dir: false,
    }
}

fn dir(name: &str) -> Entry {
    Entry {
        name: Some(name.to_owned()),
        is_dir: true,
    }
}

#[test]
fn anchor_links_to_the_entry() {
    let mut buf = String::from("x");
    write_anchor(&mut buf, "a.txt");
    assert_eq!("x<a href='./a.txt'>a.txt</a><br />", buf);
}

#[test]
fn listing_sorts_and_hides() {
    let entries = [dir(".git"), file("b.txt"), file("a.txt"), dir("sub")];
    assert_eq!(
        "<h2>directories</h2><a href='./sub'>sub</a><br /><h2>files</h2><a href='./a.txt'>a.txt</a><br /><a href='./b.txt'>b.txt</a><br />",
        list(&entries)
    );
}

#[test]
fn listing_does_not_depend_on_the_order_read() {
    let entries = [dir(".git"), file("b.txt"), file("a.txt"), dir("sub")];
    let expected = list(&entries);
    let orders: [[usize; 4]; 6] = [
        [0, 1, 2, 3],
        [3, 2, 1, 0],
        [1, 0, 3, 2],
        [2, 3, 0, 1],
        [1, 2, 3, 0],
        [3, 0, 2, 1],
    ];
    for order in orders {
        let shuffled: Vec<Entry> = order.iter().map(|&i| entries[i].clone()).collect();
        assert_eq!(expected, list(&shuffled));
        assert_eq!(expected, list(&shuffled));
    }
}

#[test]
fn empty_sections_are_left_out() {
    assert_eq!("", list(&[]));
    assert_eq!("", list(&[file(".hidden"), dir("."), dir("..")]));
    assert_eq!(
        "<h2>files</h2><a href='./a'>a</a><br />",
        list(&[file("a")])
    );
    assert_eq!(
        "<h2>directories</h2><a href='./d'>d</a><br />",
        list(&[dir("d"), file(".f")])
    );
}

#[test]
fn names_that_are_not_text_are_skipped() {
    let nameless = Entry {
        name: None,
        is_dir: false,
    };
    let nameless_dir = Entry {
        name: None,
        is_dir: true,
    };
    assert_eq!("", list(&[nameless.clone(), nameless_dir.clone()]));
    assert_eq!(
        "<h2>files</h2><a href='./a'>a</a><br />",
        list(&[nameless, file("a"), nameless_dir])
    );
}

#[test]
fn names_are_ordered_by_their_bytes() {
    let entries = [
        file("b"),
        file("a"),
        file("B"),
        file("ab"),
        file("a"),
        file(""),
        file("\u{e9}"),
        file("z"),
        file("\u{1f600}"),
        file("\u{ffff}"),
        file("10"),
        file("9"),
    ];
    let names: Vec<&str> = vec![
        "", "10", "9", "B", "a", "a", "ab", "b", "z", "\u{e9}", "\u{ffff}", "\u{1f600}",
    ];
    let mut expected = String::from("<h2>files</h2>");
    for name in names {
        expected.push_str(&format!("<a href='./{}'>{}</a><br />", name, name));
    }
    assert_eq!(expected, list(&entries));
}

fn response(status: &str, kind: &str, body: &str) -> Vec<u8> {
    format!(
        "HTTP/1.1 {}\r\nServer: {}\r\nContent-Type: {}\r\nContent-Length: {}\r\n\r\n{}",
        status,
        SERVER,
        kind,
        body.len(),
        body
    )
    .into_bytes()
}

#[test]
fn index_serves_the_listing() {
    let mut stream = Vec::new();
    let entries = vec![file("b.txt"), dir("sub"), file("a.txt"), dir(".git")];
    let html = list(&entries);
    assert!(index(&mut stream, Ok(entries)).is_ok());
    assert_eq!(response("200 OK", "text/plain", &html), stream);
}

#[test]
fn index_of_an_empty_directory_has_no_body() {
    let mut stream = Vec::new();
    assert!(index(&mut stream, Ok(Vec::new())).is_ok());
    assert_eq!(response("200 OK", "application/octet-stream", ""), stream);
}

fn failures() -> Vec<IndexError> {
    vec![
        IndexError::ReadingDirectory {
            path: "/srv/gone/".to_owned(),
            source: std::io::Error::other("gone"),
        },
        IndexError::ReadingEntry {
            source: std::io::Error::other("entry"),
        },
        IndexError::ReadingMetadata {
            path: "/srv/x/y".to_owned(),
            source: std::io::Error::other("metadata"),
        },
    ]
}

#[test]
fn a_directory_that_cannot_be_read_is_an_internal_error() {
    for failure in failures() {
        let mut stream = Vec::new();
        assert!(index(&mut stream, Err(failure)).is_ok());
        assert_eq!(
            response("500 INTERNAL SERVICE ERROR", "application/octet-stream", ""),
            stream
        );
    }
}

struct Closed;

impl Sink for Closed {
    fn write_all(&mut self, _bytes: &[u8]) -> Result<(), std::io::Error> {
        Err(std::io::Error::other("closed"))
    }
}

#[test]
fn a_listing_that_cannot_be_written_comes_back() {
    let entries = vec![file("a.txt")];
    let html = list(&entries);
    match index(&mut Closed, Ok(entries)) {
        Err(IndexError::WritingToStream { buf, .. }) => assert_eq!(html, buf),
        other => panic!("{:?}", other),
    }
    for failure in failures() {
        match index(&mut Closed, Err(failure)) {
            Err(IndexError::WritingToStream { buf, .. }) => assert_eq!("", buf),
            other => panic!("{:?}", other),
        }
    }
}

#[test]
fn messages_name_the_path() {
    let all: Vec<String> = failures().iter().map(|f| f.message()).collect();
    assert_eq!(
        vec![
            "failed to read directory '/srv/gone/'",
            "failed to read entry data in directory",
            "failed to read metadata for path '/srv/x/y'",
        ],
        all
    );
    match index(&mut Closed, Ok(vec![file("a")])) {
        Err(error) => assert_eq!(
            "failed to write to remote (unknown); content: <h2>files</h2><a href='./a'>a</a><br />",
            error.message()
        ),
        other => panic!("{:?}", other),
    }
}
