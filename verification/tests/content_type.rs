use picoserve::content_type::{resolve, Extension, Mime};

#[test]
fn content_type_test_valid() {
    assert_eq!(
        Some(Mime::TextHtml),
        Extension::new("html").map(|e| e.mime())
    );
    assert!(Extension::new("rs").map(|e| e.mime()).is_none());
}

#[test]
fn content_type_test_invalid() {
    assert!(Extension::new("hello!").is_none());
}

fn table() -> Vec<(&'static str, &'static str)> {
    vec![
        ("css", "text/css"),
        ("csv", "text/csv"),
        ("epub", "application/epub+zip"),
        ("gif", "image/gif"),
        ("html", "text/html"),
        ("htm", "text/html"),
        ("ico", "image/vnd.microsoft.icon"),
        ("ics", "text/calendar"),
        ("js", "application/javascript"),
        ("jpeg", "image/jpeg"),
        ("jpg", "image/jpeg"),
        ("jsonld", "application/ld+json"),
        ("json", "application/json"),
        ("md", "text/markdown"),
        ("mp3", "audio/mpeg"),
        ("mp4", "video/mp4"),
        ("mpeg", "video/mpeg"),
        ("oga", "audio/ogg"),
        ("ogv", "video/ogg"),
        ("opus", "audio/opus"),
        ("otf", "font/otf"),
        ("pdf", "application/pdf"),
        ("php", "application/x-httpd-php"),
        ("png", "image/png"),
        ("pl", "application/x-perl"),
        ("sh", "application/x-sh"),
        ("svg", "image/svg+xml"),
        ("tar", "application/x-tar"),
        ("tiff", "image/tiff"),
        ("tif", "image/tiff"),
        ("ttf", "font/ttf"),
        ("wav", "audio/wav"),
        ("weba", "audio/webm"),
        ("webm", "video/webm"),
        ("webp", "image/webp"),
        ("woff", "font/woff"),
        ("woff2", "font/woff2"),
        ("xhtml", "application/xhtml+xml"),
        ("xls", "application/vnd.ms-excel"),
        (
            "xlsx",
            "application/vnd.openxmlformats-officedocument.spreadsheetml.sheet",
        ),
        ("xml", "text/xml"),
        ("zip", "application/zip"),
        ("7z", "application/x-7z-compressed"),
    ]
}

#[test]
fn every_known_extension_has_its_media_type() {
    for (extension, name) in table() {
        assert_eq!(Some(name), Extension::new(extension).map(|e| e.mime().name()));
        assert_eq!(name, resolve(Some(extension), b"").name());
        assert_eq!(name, resolve(Some(extension), b"plain text").name());
        assert_eq!(name, resolve(Some(extension), b"\xff\xfe").name());
    }
}

#[test]
fn the_table_ignores_case() {
    for (extension, name) in table() {
        let upper = extension.to_ascii_uppercase();
        assert_eq!(Some(name), Extension::new(&upper).map(|e| e.mime().name()));
    }
    assert_eq!(Some(Mime::TextHtml), Extension::new("HtMl").map(|e| e.mime()));
    assert_eq!(Some(Mime::ImageJpeg), Extension::new("JPG").map(|e| e.mime()));
}

#[test]
fn near_misses_are_unknown() {
    assert!(Extension::new("").is_none());
    assert!(Extension::new("htmlx").is_none());
    assert!(Extension::new("ht").is_none());
    assert!(Extension::new(".html").is_none());
    assert!(Extension::new("html ").is_none());
    assert!(Extension::new("c\u{327}ss").is_none());
    assert!(Extension::new("\u{212a}").is_none());
    assert!(Extension::new("txt").is_none());
}

#[test]
fn content_without_extension_is_text_or_binary() {
    assert_eq!(Mime::TextPlain, resolve(None, b"hello"));
    assert_eq!(Mime::TextPlain, resolve(None, "gr\u{fc}\u{df}e \u{1f600}".as_bytes()));
    assert_eq!(Mime::OctetStream, resolve(None, b"\xff\xfe\x00"));
    assert_eq!(Mime::OctetStream, resolve(None, b"abc\x80"));
    assert_eq!(Mime::OctetStream, resolve(None, b"\xc0\xaf"));
    assert_eq!(Mime::OctetStream, resolve(None, b"\xed\xa0\x80"));
    assert_eq!(Mime::OctetStream, resolve(None, b""));
}

#[test]
fn unknown_extensions_fall_back_to_the_content() {
    assert_eq!(Mime::TextPlain, resolve(Some("rs"), b"fn main() {}"));
    assert_eq!(Mime::OctetStream, resolve(Some("bin"), b"\x00\xff"));
    assert_eq!(Mime::OctetStream, resolve(Some("rs"), b""));
}

#[test]
fn from_input_inspects_the_content() {
    assert_eq!(Mime::TextPlain, Mime::from_input(b"a"));
    assert_eq!(Mime::OctetStream, Mime::from_input(b"\xf8"));
    assert_eq!(Mime::OctetStream, Mime::from_input(b""));
    assert_eq!("text/plain", Mime::TextPlain.name());
    assert_eq!("application/octet-stream", Mime::OctetStream.name());
}
