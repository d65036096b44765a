//! File extensions as a closed set, with a media type string for every
//! extension, known or not.

use crate::text::{lowered, lowered_is};
use vstd::prelude::*;

verus! {

/// A file extension: one of the known ones, a source or text file, or
/// anything else.
#[derive(Clone, Copy, Debug, PartialEq, Eq, Structural)]
pub enum Extension {
    Css,
    Csv,
    Epub,
    Gif,
    Html,
    Ico,
    Ics,
    Js,
    Jpeg,
    Jsonld,
    Json,
    Md,
    Mp3,
    Mp4,
    Mpeg,
    Oga,
    Ogv,
    Opus,
    Otf,
    OtherBinary,
    OtherText,
    Pdf,
    Php,
    Png,
    Pl,
    Sh,
    Svg,
    Tar,
    Tiff,
    Ttf,
    Wav,
    Weba,
    Webm,
    Webp,
    Woff2,
    Woff,
    Xhtml,
    Xlsx,
    Xls,
    Xml,
    Zip,
    X7zip,
}

impl Extension {
    /// The extension that a lower-case key stands for; keys outside the
    /// table stand for `OtherBinary`.
    pub open spec fn of(key: Seq<char>) -> Self {
        if key == "css"@ {
            Self::Css
        } else if key == "csv"@ {
            Self::Csv
        } else if key == "cs"@ {
            Self::OtherText
        } else if key == "c"@ {
            Self::OtherText
        } else if key == "epub"@ {
            Self::Epub
        } else if key == "gif"@ {
            Self::Gif
        } else if key == "html"@ {
            Self::Html
        } else if key == "htm"@ {
            Self::Html
        } else if key == "ico"@ {
            Self::Ico
        } else if key == "ics"@ {
            Self::Ics
        } else if key == "js"@ {
            Self::Js
        } else if key == "jpeg"@ {
            Self::Jpeg
        } else if key == "jpg"@ {
            Self::Jpeg
        } else if key == "jsonld"@ {
            Self::Jsonld
        } else if key == "json"@ {
            Self::Json
        } else if key == "md"@ {
            Self::Md
        } else if key == "mp3"@ {
            Self::Mp3
        } else if key == "mp4"@ {
            Self::Mp4
        } else if key == "mpeg"@ {
            Self::Mpeg
        } else if key == "oga"@ {
            Self::Oga
        } else if key == "ogv"@ {
            Self::Ogv
        } else if key == "opus"@ {
            Self::Opus
        } else if key == "otf"@ {
            Self::Otf
        } else if key == "pdf"@ {
            Self::Pdf
        } else if key == "php"@ {
            Self::Php
        } else if key == "png"@ {
            Self::Png
        } else if key == "pl"@ {
            Self::Pl
        } else if key == "py"@ {
            Self::OtherText
        } else if key == "rb"@ {
            Self::OtherText
        } else if key == "rs"@ {
            Self::OtherText
        } else if key == "sh"@ {
            Self::Sh
        } else if key == "svg"@ {
            Self::Svg
        } else if key == "tar"@ {
            Self::Tar
        } else if key == "tiff"@ {
            Self::Tiff
        } else if key == "tif"@ {
            Self::Tiff
        } else if key == "toml"@ {
            Self::OtherText
        } else if key == "ts"@ {
            Self::OtherText
        } else if key == "ttf"@ {
            Self::Ttf
        } else if key == "txt"@ {
            Self::OtherText
        } else if key == "wav"@ {
            Self::Wav
        } else if key == "weba"@ {
            Self::Weba
        } else if key == "webm"@ {
            Self::Webm
        } else if key == "webp"@ {
            Self::Webp
        } else if key == "woff"@ {
            Self::Woff
        } else if key == "woff2"@ {
            Self::Woff2
        } else if key == "xhtml"@ {
            Self::Xhtml
        } else if key == "xls"@ {
            Self::Xls
        } else if key == "xlsx"@ {
            Self::Xlsx
        } else if key == "xml"@ {
            Self::Xml
        } else if key == "zip"@ {
            Self::Zip
        } else if key == "7z"@ {
            Self::X7zip
        } else {
            Self::OtherBinary
        }
    }

    /// The media type string served for this extension.
    pub open spec fn spec_mime(&self) -> Seq<char> {
        match self {
            Self::Css => "text/css"@,
            Self::Csv => "text/csv"@,
            Self::Epub => "application/epub+zip"@,
            Self::Gif => "image/gif"@,
            Self::Html => "text/html"@,
            Self::Ico => "image/vnd.microsoft.icon"@,
            Self::Ics => "text/calendar"@,
            Self::Js => "application/javascript"@,
            Self::Jpeg => "image/jpeg"@,
            Self::Jsonld => "application/ld+json"@,
            Self::Json => "application/json"@,
            Self::Md => "text/markdown"@,
            Self::Mp3 => "audio/mpeg"@,
            Self::Mp4 => "video/mp4"@,
            Self::Mpeg => "video/mpeg"@,
            Self::Oga => "audio/ogg"@,
            Self::Ogv => "video/ogg"@,
            Self::Opus => "audio/opus"@,
            Self::Otf => "font/otf"@,
            Self::Pdf => "application/pdf"@,
            Self::Php => "application/x-httpd-php"@,
            Self::Png => "image/png"@,
            Self::Pl => "application/x-perl"@,
            Self::Sh => "application/x-sh"@,
            Self::Svg => "image/svg+xml"@,
            Self::Tar => "application/x-tar"@,
            Self::Tiff => "image/tiff"@,
            Self::Ttf => "font/ttf"@,
            Self::Wav => "audio/wav"@,
            Self::Weba => "audio/webm"@,
            Self::Webm => "video/webm"@,
            Self::Webp => "image/webp"@,
            Self::Woff => "font/woff"@,
            Self::Woff2 => "font/woff2"@,
            Self::Xhtml => "application/xhtml+xml"@,
            Self::Xls => "application/vnd.ms-excel"@,
            Self::Xlsx => "application/vnd.openxmlformats-officedocument.spreadsheetml.sheet"@,
            Self::Xml => "text/xml"@,
            Self::Zip => "application/zip"@,
            Self::X7zip => "application/x-7z-compressed"@,
            Self::OtherBinary => "application/octet-stream"@,
            Self::OtherText => "text/plain"@,
        }
    }

    /// Classifies `extension`, ignoring the case of ASCII letters.
    pub fn new(extension: &str) -> (r: Self)
        ensures
            r == Self::of(lowered(extension@)),
    {
        if lowered_is(extension, "css") {
            Self::Css
        } else if lowered_is(extension, "csv") {
            Self::Csv
        } else if lowered_is(extension, "cs") {
            Self::OtherText
        } else if lowered_is(extension, "c") {
            Self::OtherText
        } else if lowered_is(extension, "epub") {
            Self::Epub
        } else if lowered_is(extension, "gif") {
            Self::Gif
        } else if lowered_is(extension, "html") {
            Self::Html
        } else if lowered_is(extension, "htm") {
            Self::Html
        } else if lowered_is(extension, "ico") {
            Self::Ico
        } else if lowered_is(extension, "ics") {
            Self::Ics
        } else if lowered_is(extension, "js") {
            Self::Js
        } else if lowered_is(extension, "jpeg") {
            Self::Jpeg
        } else if lowered_is(extension, "jpg") {
            Self::Jpeg
        } else if lowered_is(extension, "jsonld") {
            Self::Jsonld
        } else if lowered_is(extension, "json") {
            Self::Json
        } else if lowered_is(extension, "md") {
            Self::Md
        } else if lowered_is(extension, "mp3") {
            Self::Mp3
        } else if lowered_is(extension, "mp4") {
            Self::Mp4
        } else if lowered_is(extension, "mpeg") {
            Self::Mpeg
        } else if lowered_is(extension, "oga") {
            Self::Oga
        } else if lowered_is(extension, "ogv") {
            Self::Ogv
        } else if lowered_is(extension, "opus") {
            Self::Opus
        } else if lowered_is(extension, "otf") {
            Self::Otf
        } else if lowered_is(extension, "pdf") {
            Self::Pdf
        } else if lowered_is(extension, "php") {
            Self::Php
        } else if lowered_is(extension, "png") {
            Self::Png
        } else if lowered_is(extension, "pl") {
            Self::Pl
        } else if lowered_is(extension, "py") {
            Self::OtherText
        } else if lowered_is(extension, "rb") {
            Self::OtherText
        } else if lowered_is(extension, "rs") {
            Self::OtherText
        } else if lowered_is(extension, "sh") {
            Self::Sh
        } else if lowered_is(extension, "svg") {
            Self::Svg
        } else if lowered_is(extension, "tar") {
            Self::Tar
        } else if lowered_is(extension, "tiff") {
            Self::Tiff
        } else if lowered_is(extension, "tif") {
            Self::Tiff
        } else if lowered_is(extension, "toml") {
            Self::OtherText
        } else if lowered_is(extension, "ts") {
            Self::OtherText
        } else if lowered_is(extension, "ttf") {
            Self::Ttf
        } else if lowered_is(extension, "txt") {
            Self::OtherText
        } else if lowered_is(extension, "wav") {
            Self::Wav
        } else if lowered_is(extension, "weba") {
            Self::Weba
        } else if lowered_is(extension, "webm") {
            Self::Webm
        } else if lowered_is(extension, "webp") {
            Self::Webp
        } else if lowered_is(extension, "woff") {
            Self::Woff
        } else if lowered_is(extension, "woff2") {
            Self::Woff2
        } else if lowered_is(extension, "xhtml") {
            Self::Xhtml
        } else if lowered_is(extension, "xls") {
            Self::Xls
        } else if lowered_is(extension, "xlsx") {
            Self::Xlsx
        } else if lowered_is(extension, "xml") {
            Self::Xml
        } else if lowered_is(extension, "zip") {
            Self::Zip
        } else if lowered_is(extension, "7z") {
            Self::X7zip
        } else {
            Self::OtherBinary
        }
    }

    /// The media type string served for this extension.
    pub fn mime(&self) -> (s: &'static str)
        ensures
            s@ == self.spec_mime(),
    {
        match self {
            Self::Css => "text/css",
            Self::Csv => "text/csv",
            Self::Epub => "application/epub+zip",
            Self::Gif => "image/gif",
            Self::Html => "text/html",
            Self::Ico => "image/vnd.microsoft.icon",
            Self::Ics => "text/calendar",
            Self::Js => "application/javascript",
            Self::Jpeg => "image/jpeg",
            Self::Jsonld => "application/ld+json",
            Self::Json => "application/json",
            Self::Md => "text/markdown",
            Self::Mp3 => "audio/mpeg",
            Self::Mp4 => "video/mp4",
            Self::Mpeg => "video/mpeg",
            Self::Oga => "audio/ogg",
            Self::Ogv => "video/ogg",
            Self::Opus => "audio/opus",
            Self::Otf => "font/otf",
            Self::Pdf => "application/pdf",
            Self::Php => "application/x-httpd-php",
            Self::Png => "image/png",
            Self::Pl => "application/x-perl",
            Self::Sh => "application/x-sh",
            Self::Svg => "image/svg+xml",
            Self::Tar => "application/x-tar",
            Self::Tiff => "image/tiff",
            Self::Ttf => "font/ttf",
            Self::Wav => "audio/wav",
            Self::Weba => "audio/webm",
            Self::Webm => "video/webm",
            Self::Webp => "image/webp",
            Self::Woff => "font/woff",
            Self::Woff2 => "font/woff2",
            Self::Xhtml => "application/xhtml+xml",
            Self::Xls => "application/vnd.ms-excel",
            Self::Xlsx => "application/vnd.openxmlformats-officedocument.spreadsheetml.sheet",
            Self::Xml => "text/xml",
            Self::Zip => "application/zip",
            Self::X7zip => "application/x-7z-compressed",
            Self::OtherBinary => "application/octet-stream",
            Self::OtherText => "text/plain",
        }
    }
}

/// This table and the one in `content_type` agree: an extension known
/// there has the same media type string here, and every other extension is
/// `OtherText` or `OtherBinary` here.
pub proof fn lemma_tables_agree(key: Seq<char>)
    ensures
        match crate::content_type::Extension::of(key) {
            Some(known) => Extension::of(key).spec_mime() == known.spec_mime().spec_name(),
            None => Extension::of(key) == Extension::OtherText || Extension::of(key)
                == Extension::OtherBinary,
        },
{
    reveal_strlit("css");
    reveal_strlit("csv");
    reveal_strlit("cs");
    reveal_strlit("c");
    reveal_strlit("epub");
    reveal_strlit("gif");
    reveal_strlit("html");
    reveal_strlit("htm");
    reveal_strlit("ico");
    reveal_strlit("ics");
    reveal_strlit("js");
    reveal_strlit("jpeg");
    reveal_strlit("jpg");
    reveal_strlit("jsonld");
    reveal_strlit("json");
    reveal_strlit("md");
    reveal_strlit("mp3");
    reveal_strlit("mp4");
    reveal_strlit("mpeg");
    reveal_strlit("oga");
    reveal_strlit("ogv");
    reveal_strlit("opus");
    reveal_strlit("otf");
    reveal_strlit("pdf");
    reveal_strlit("php");
    reveal_strlit("png");
    reveal_strlit("pl");
    reveal_strlit("py");
    reveal_strlit("rb");
    reveal_strlit("rs");
    reveal_strlit("sh");
    reveal_strlit("svg");
    reveal_strlit("tar");
    reveal_strlit("tiff");
    reveal_strlit("tif");
    reveal_strlit("toml");
    reveal_strlit("ts");
    reveal_strlit("ttf");
    reveal_strlit("txt");
    reveal_strlit("wav");
    reveal_strlit("weba");
    reveal_strlit("webm");
    reveal_strlit("webp");
    reveal_strlit("woff");
    reveal_strlit("woff2");
    reveal_strlit("xhtml");
    reveal_strlit("xls");
    reveal_strlit("xlsx");
    reveal_strlit("xml");
    reveal_strlit("zip");
    reveal_strlit("7z");
    assert("css"@.len() == 3);
    assert("csv"@.len() == 3);
    assert("cs"@.len() == 2);
    assert("c"@.len() == 1);
    assert("epub"@.len() == 4);
    assert("gif"@.len() == 3);
    assert("html"@.len() == 4);
    assert("htm"@.len() == 3);
    assert("ico"@.len() == 3);
    assert("ics"@.len() == 3);
    assert("js"@.len() == 2);
    assert("jpeg"@.len() == 4);
    assert("jpg"@.len() == 3);
    assert("jsonld"@.len() == 6);
    assert("json"@.len() == 4);
    assert("md"@.len() == 2);
    assert("mp3"@.len() == 3);
    assert("mp4"@.len() == 3);
    assert("mpeg"@.len() == 4);
    assert("oga"@.len() == 3);
    assert("ogv"@.len() == 3);
    assert("opus"@.len() == 4);
    assert("otf"@.len() == 3);
    assert("pdf"@.len() == 3);
    assert("php"@.len() == 3);
    assert("png"@.len() == 3);
    assert("pl"@.len() == 2);
    assert("py"@.len() == 2);
    assert("rb"@.len() == 2);
    assert("rs"@.len() == 2);
    assert("sh"@.len() == 2);
    assert("svg"@.len() == 3);
    assert("tar"@.len() == 3);
    assert("tiff"@.len() == 4);
    assert("tif"@.len() == 3);
    assert("toml"@.len() == 4);
    assert("ts"@.len() == 2);
    assert("ttf"@.len() == 3);
    assert("txt"@.len() == 3);
    assert("wav"@.len() == 3);
    assert("weba"@.len() == 4);
    assert("webm"@.len() == 4);
    assert("webp"@.len() == 4);
    assert("woff"@.len() == 4);
    assert("woff2"@.len() == 5);
    assert("xhtml"@.len() == 5);
    assert("xls"@.len() == 3);
    assert("xlsx"@.len() == 4);
    assert("xml"@.len() == 3);
    assert("zip"@.len() == 3);
    assert("7z"@.len() == 2);
    assert("cs"@[0] == 'c' && "cs"@[1] == 's');
    assert("c"@[0] == 'c');
    assert("py"@[0] == 'p' && "py"@[1] == 'y');
    assert("rb"@[0] == 'r' && "rb"@[1] == 'b');
    assert("rs"@[0] == 'r' && "rs"@[1] == 's');
    assert("toml"@[0] == 't' && "toml"@[1] == 'o' && "toml"@[2] == 'm' && "toml"@[3] == 'l');
    assert("ts"@[0] == 't' && "ts"@[1] == 's');
    assert("txt"@[0] == 't' && "txt"@[1] == 'x' && "txt"@[2] == 't');
}

} // verus!
