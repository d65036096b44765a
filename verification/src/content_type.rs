//! Content types: the table from file extensions to media types, and the
//! text-or-binary fallback for content without a known extension.

use crate::text::{lowered, lowered_is, text_of};
use vstd::prelude::*;
use vstd::string::StringSliceAdditionalSpecFns;
use vstd::utf8::valid_utf8;

verus! {

/// A file extension with a known media type.
#[derive(Clone, Copy, Debug, PartialEq, Eq, Structural)]
pub enum Extension {
    Css,
    Csv,
    Epub,
    Gif,
    Html,
    Ico,
    Ics,
    Js,
    Jpeg,
    Jsonld,
    Json,
    Md,
    Mp3,
    Mp4,
    Mpeg,
    Oga,
    Ogv,
    Opus,
    Otf,
    Pdf,
    Php,
    Png,
    Pl,
    Sh,
    Svg,
    Tar,
    Tiff,
    Ttf,
    Wav,
    Weba,
    Webm,
    Webp,
    Woff2,
    Woff,
    Xhtml,
    Xlsx,
    Xls,
    Xml,
    Zip,
    X7zip,
}

impl Extension {
    /// The table of known extensions, keyed by lower-case text.
    pub open spec fn of(key: Seq<char>) -> Option<Self> {
        if key == "css"@ {
            Some(Self::Css)
        } else if key == "csv"@ {
            Some(Self::Csv)
        } else if key == "epub"@ {
            Some(Self::Epub)
        } else if key == "gif"@ {
            Some(Self::Gif)
        } else if key == "html"@ {
            Some(Self::Html)
        } else if key == "htm"@ {
            Some(Self::Html)
        } else if key == "ico"@ {
            Some(Self::Ico)
        } else if key == "ics"@ {
            Some(Self::Ics)
        } else if key == "js"@ {
            Some(Self::Js)
        } else if key == "jpeg"@ {
            Some(Self::Jpeg)
        } else if key == "jpg"@ {
            Some(Self::Jpeg)
        } else if key == "jsonld"@ {
            Some(Self::Jsonld)
        } else if key == "json"@ {
            Some(Self::Json)
        } else if key == "md"@ {
            Some(Self::Md)
        } else if key == "mp3"@ {
            Some(Self::Mp3)
        } else if key == "mp4"@ {
            Some(Self::Mp4)
        } else if key == "mpeg"@ {
            Some(Self::Mpeg)
        } else if key == "oga"@ {
            Some(Self::Oga)
        } else if key == "ogv"@ {
            Some(Self::Ogv)
        } else if key == "opus"@ {
            Some(Self::Opus)
        } else if key == "otf"@ {
            Some(Self::Otf)
        } else if key == "pdf"@ {
            Some(Self::Pdf)
        } else if key == "php"@ {
            Some(Self::Php)
        } else if key == "png"@ {
            Some(Self::Png)
        } else if key == "pl"@ {
            Some(Self::Pl)
        } else if key == "sh"@ {
            Some(Self::Sh)
        } else if key == "svg"@ {
            Some(Self::Svg)
        } else if key == "tar"@ {
            Some(Self::Tar)
        } else if key == "tiff"@ {
            Some(Self::Tiff)
        } else if key == "tif"@ {
            Some(Self::Tiff)
        } else if key == "ttf"@ {
            Some(Self::Ttf)
        } else if key == "wav"@ {
            Some(Self::Wav)
        } else if key == "weba"@ {
            Some(Self::Weba)
        } else if key == "webm"@ {
            Some(Self::Webm)
        } else if key == "webp"@ {
            Some(Self::Webp)
        } else if key == "woff"@ {
            Some(Self::Woff)
        } else if key == "woff2"@ {
            Some(Self::Woff2)
        } else if key == "xhtml"@ {
            Some(Self::Xhtml)
        } else if key == "xls"@ {
            Some(Self::Xls)
        } else if key == "xlsx"@ {
            Some(Self::Xlsx)
        } else if key == "xml"@ {
            Some(Self::Xml)
        } else if key == "zip"@ {
            Some(Self::Zip)
        } else if key == "7z"@ {
            Some(Self::X7zip)
        } else {
            None
        }
    }

    /// The media type served for this extension.
    pub open spec fn spec_mime(&self) -> Mime {
        match self {
            Self::Css => Mime::TextCss,
            Self::Csv => Mime::TextCsv,
            Self::Epub => Mime::ApplicationEpub,
            Self::Gif => Mime::ImageGif,
            Self::Html => Mime::TextHtml,
            Self::Ico => Mime::ImageIco,
            Self::Ics => Mime::TextCalendar,
            Self::Js => Mime::ApplicationJavascript,
            Self::Jpeg => Mime::ImageJpeg,
            Self::Jsonld => Mime::ApplicationLdJson,
            Self::Json => Mime::ApplicationJson,
            Self::Md => Mime::TextMarkdown,
            Self::Mp3 => Mime::AudioMpeg,
            Self::Mp4 => Mime::VideoMp4,
            Self::Mpeg => Mime::VideoMpeg,
            Self::Oga => Mime::AudioOgg,
            Self::Ogv => Mime::VideoOgg,
            Self::Opus => Mime::AudioOpus,
            Self::Otf => Mime::FontOtf,
            Self::Pdf => Mime::ApplicationPdf,
            Self::Php => Mime::ApplicationPhp,
            Self::Png => Mime::ImagePng,
            Self::Pl => Mime::ApplicationPerl,
            Self::Sh => Mime::AppicationSh,
            Self::Svg => Mime::ImageSvg,
            Self::Tar => Mime::ApplicationTar,
            Self::Tiff => Mime::ImageTiff,
            Self::Ttf => Mime::FontTtf,
            Self::Wav => Mime::AudioWav,
            Self::Weba => Mime::AudioWebm,
            Self::Webm => Mime::VideoWebm,
            Self::Webp => Mime::ImageWebp,
            Self::Woff => Mime::FontWoff,
            Self::Woff2 => Mime::FontWoff2,
            Self::Xhtml => Mime::ApplicationXhtml,
            Self::Xls => Mime::ApplicationVndMsExcel,
            Self::Xlsx => Mime::ApplicationOpenSheet,
            Self::Xml => Mime::TextXml,
            Self::Zip => Mime::ApplicationZip,
            Self::X7zip => Mime::Application7z,
        }
    }

    /// Looks `extension` up in the table of known extensions, ignoring the
    /// case of ASCII letters.
    pub fn new(extension: &str) -> (r: Option<Self>)
        ensures
            r == Self::of(lowered(extension@)),
    {
        if lowered_is(extension, "css") {
            Some(Self::Css)
        } else if lowered_is(extension, "csv") {
            Some(Self::Csv)
        } else if lowered_is(extension, "epub") {
            Some(Self::Epub)
        } else if lowered_is(extension, "gif") {
            Some(Self::Gif)
        } else if lowered_is(extension, "html") {
            Some(Self::Html)
        } else if lowered_is(extension, "htm") {
            Some(Self::Html)
        } else if lowered_is(extension, "ico") {
            Some(Self::Ico)
        } else if lowered_is(extension, "ics") {
            Some(Self::Ics)
        } else if lowered_is(extension, "js") {
            Some(Self::Js)
        } else if lowered_is(extension, "jpeg") {
            Some(Self::Jpeg)
        } else if lowered_is(extension, "jpg") {
            Some(Self::Jpeg)
        } else if lowered_is(extension, "jsonld") {
            Some(Self::Jsonld)
        } else if lowered_is(extension, "json") {
            Some(Self::Json)
        } else if lowered_is(extension, "md") {
            Some(Self::Md)
        } else if lowered_is(extension, "mp3") {
            Some(Self::Mp3)
        } else if lowered_is(extension, "mp4") {
            Some(Self::Mp4)
        } else if lowered_is(extension, "mpeg") {
            Some(Self::Mpeg)
        } else if lowered_is(extension, "oga") {
            Some(Self::Oga)
        } else if lowered_is(extension, "ogv") {
            Some(Self::Ogv)
        } else if lowered_is(extension, "opus") {
            Some(Self::Opus)
        } else if lowered_is(extension, "otf") {
            Some(Self::Otf)
        } else if lowered_is(extension, "pdf") {
            Some(Self::Pdf)
        } else if lowered_is(extension, "php") {
            Some(Self::Php)
        } else if lowered_is(extension, "png") {
            Some(Self::Png)
        } else if lowered_is(extension, "pl") {
            Some(Self::Pl)
        } else if lowered_is(extension, "sh") {
            Some(Self::Sh)
        } else if lowered_is(extension, "svg") {
            Some(Self::Svg)
        } else if lowered_is(extension, "tar") {
            Some(Self::Tar)
        } else if lowered_is(extension, "tiff") {
            Some(Self::Tiff)
        } else if lowered_is(extension, "tif") {
            Some(Self::Tiff)
        } else if lowered_is(extension, "ttf") {
            Some(Self::Ttf)
        } else if lowered_is(extension, "wav") {
            Some(Self::Wav)
        } else if lowered_is(extension, "weba") {
            Some(Self::Weba)
        } else if lowered_is(extension, "webm") {
            Some(Self::Webm)
        } else if lowered_is(extension, "webp") {
            Some(Self::Webp)
        } else if lowered_is(extension, "woff") {
            Some(Self::Woff)
        } else if lowered_is(extension, "woff2") {
            Some(Self::Woff2)
        } else if lowered_is(extension, "xhtml") {
            Some(Self::Xhtml)
        } else if lowered_is(extension, "xls") {
            Some(Self::Xls)
        } else if lowered_is(extension, "xlsx") {
            Some(Self::Xlsx)
        } else if lowered_is(extension, "xml") {
            Some(Self::Xml)
        } else if lowered_is(extension, "zip") {
            Some(Self::Zip)
        } else if lowered_is(extension, "7z") {
            Some(Self::X7zip)
        } else {
            None
        }
    }

    /// The media type served for this extension.
    #[verifier::when_used_as_spec(spec_mime)]
    pub fn mime(&self) -> (m: Mime)
        ensures
            m == self.spec_mime(),
    {
        match self {
            Self::Css => Mime::TextCss,
            Self::Csv => Mime::TextCsv,
            Self::Epub => Mime::ApplicationEpub,
            Self::Gif => Mime::ImageGif,
            Self::Html => Mime::TextHtml,
            Self::Ico => Mime::ImageIco,
            Self::Ics => Mime::TextCalendar,
            Self::Js => Mime::ApplicationJavascript,
            Self::Jpeg => Mime::ImageJpeg,
            Self::Jsonld => Mime::ApplicationLdJson,
            Self::Json => Mime::ApplicationJson,
            Self::Md => Mime::TextMarkdown,
            Self::Mp3 => Mime::AudioMpeg,
            Self::Mp4 => Mime::VideoMp4,
            Self::Mpeg => Mime::VideoMpeg,
            Self::Oga => Mime::AudioOgg,
            Self::Ogv => Mime::VideoOgg,
            Self::Opus => Mime::AudioOpus,
            Self::Otf => Mime::FontOtf,
            Self::Pdf => Mime::ApplicationPdf,
            Self::Php => Mime::ApplicationPhp,
            Self::Png => Mime::ImagePng,
            Self::Pl => Mime::ApplicationPerl,
            Self::Sh => Mime::AppicationSh,
            Self::Svg => Mime::ImageSvg,
            Self::Tar => Mime::ApplicationTar,
            Self::Tiff => Mime::ImageTiff,
            Self::Ttf => Mime::FontTtf,
            Self::Wav => Mime::AudioWav,
            Self::Weba => Mime::AudioWebm,
            Self::Webm => Mime::VideoWebm,
            Self::Webp => Mime::ImageWebp,
            Self::Woff => Mime::FontWoff,
            Self::Woff2 => Mime::FontWoff2,
            Self::Xhtml => Mime::ApplicationXhtml,
            Self::Xls => Mime::ApplicationVndMsExcel,
            Self::Xlsx => Mime::ApplicationOpenSheet,
            Self::Xml => Mime::TextXml,
            Self::Zip => Mime::ApplicationZip,
            Self::X7zip => Mime::Application7z,
        }
    }
}

/// A media type.
#[derive(Clone, Copy, Debug, PartialEq, Eq, Structural)]
pub enum Mime {
    ApplicationEpub,
    ApplicationJavascript,
    ApplicationLdJson,
    ApplicationJson,
    OctetStream,
    ApplicationPdf,
    ApplicationVndMsExcel,
    ApplicationOpenSheet,
    Application7z,
    ApplicationPhp,
    ApplicationPerl,
    AppicationSh,
    ApplicationTar,
    ApplicationXhtml,
    ApplicationZip,
    AudioMpeg,
    AudioOgg,
    AudioOpus,
    AudioWav,
    AudioWebm,
    FontOtf,
    FontTtf,
    FontWoff,
    FontWoff2,
    ImageGif,
    ImageJpeg,
    ImagePng,
    ImageSvg,
    ImageTiff,
    ImageIco,
    ImageWebp,
    TextCalendar,
    TextCss,
    TextCsv,
    TextHtml,
    TextMarkdown,
    TextPlain,
    TextXml,
    VideoMp4,
    VideoMpeg,
    VideoOgg,
    VideoWebm,
}

impl Mime {
    /// The media type of content that carries no usable extension: plain
    /// text when the content is non-empty, well-formed UTF-8, and an opaque
    /// octet stream otherwise.
    pub open spec fn inspect(content: Seq<u8>) -> Self {
        if content.len() > 0 && valid_utf8(content) {
            Self::TextPlain
        } else {
            Self::OctetStream
        }
    }

    /// The media type string, as sent in a `Content-Type` header.
    pub open spec fn spec_name(&self) -> Seq<char> {
        match self {
            Self::ApplicationEpub => "application/epub+zip"@,
            Self::ApplicationJavascript => "application/javascript"@,
            Self::ApplicationLdJson => "application/ld+json"@,
            Self::ApplicationJson => "application/json"@,
            Self::OctetStream => "application/octet-stream"@,
            Self::ApplicationPdf => "application/pdf"@,
            Self::ApplicationVndMsExcel => "application/vnd.ms-excel"@,
            Self::ApplicationOpenSheet => "application/vnd.openxmlformats-officedocument.spreadsheetml.sheet"@,
            Self::Application7z => "application/x-7z-compressed"@,
            Self::ApplicationPhp => "application/x-httpd-php"@,
            Self::ApplicationPerl => "application/x-perl"@,
            Self::AppicationSh => "application/x-sh"@,
            Self::ApplicationTar => "application/x-tar"@,
            Self::ApplicationXhtml => "application/xhtml+xml"@,
            Self::ApplicationZip => "application/zip"@,
            Self::AudioMpeg => "audio/mpeg"@,
            Self::AudioOgg => "audio/ogg"@,
            Self::AudioOpus => "audio/opus"@,
            Self::AudioWav => "audio/wav"@,
            Self::AudioWebm => "audio/webm"@,
            Self::FontOtf => "font/otf"@,
            Self::FontTtf => "font/ttf"@,
            Self::FontWoff => "font/woff"@,
            Self::FontWoff2 => "font/woff2"@,
            Self::ImageGif => "image/gif"@,
            Self::ImageJpeg => "image/jpeg"@,
            Self::ImagePng => "image/png"@,
            Self::ImageSvg => "image/svg+xml"@,
            Self::ImageTiff => "image/tiff"@,
            Self::ImageIco => "image/vnd.microsoft.icon"@,
            Self::ImageWebp => "image/webp"@,
            Self::TextCalendar => "text/calendar"@,
            Self::TextCss => "text/css"@,
            Self::TextCsv => "text/csv"@,
            Self::TextHtml => "text/html"@,
            Self::TextMarkdown => "text/markdown"@,
            Self::TextPlain => "text/plain"@,
            Self::TextXml => "text/xml"@,
            Self::VideoMp4 => "video/mp4"@,
            Self::VideoMpeg => "video/mpeg"@,
            Self::VideoOgg => "video/ogg"@,
            Self::VideoWebm => "video/webm"@,
        }
    }

    /// Infers a media type from the content alone.
    pub fn from_input(input: &[u8]) -> (m: Self)
        ensures
            m == Self::inspect(input@),
    {
        if input.len() > 0 && core::str::from_utf8(input).is_ok() {
            Self::TextPlain
        } else {
            Self::OctetStream
        }
    }

    /// The media type string, as sent in a `Content-Type` header.
    pub fn name(&self) -> (s: &'static str)
        ensures
            s@ == self.spec_name(),
    {
        match self {
            Self::ApplicationEpub => "application/epub+zip",
            Self::ApplicationJavascript => "application/javascript",
            Self::ApplicationLdJson => "application/ld+json",
            Self::ApplicationJson => "application/json",
            Self::OctetStream => "application/octet-stream",
            Self::ApplicationPdf => "application/pdf",
            Self::ApplicationVndMsExcel => "application/vnd.ms-excel",
            Self::ApplicationOpenSheet => "application/vnd.openxmlformats-officedocument.spreadsheetml.sheet",
            Self::Application7z => "application/x-7z-compressed",
            Self::ApplicationPhp => "application/x-httpd-php",
            Self::ApplicationPerl => "application/x-perl",
            Self::AppicationSh => "application/x-sh",
            Self::ApplicationTar => "application/x-tar",
            Self::ApplicationXhtml => "application/xhtml+xml",
            Self::ApplicationZip => "application/zip",
            Self::AudioMpeg => "audio/mpeg",
            Self::AudioOgg => "audio/ogg",
            Self::AudioOpus => "audio/opus",
            Self::AudioWav => "audio/wav",
            Self::AudioWebm => "audio/webm",
            Self::FontOtf => "font/otf",
            Self::FontTtf => "font/ttf",
            Self::FontWoff => "font/woff",
            Self::FontWoff2 => "font/woff2",
            Self::ImageGif => "image/gif",
            Self::ImageJpeg => "image/jpeg",
            Self::ImagePng => "image/png",
            Self::ImageSvg => "image/svg+xml",
            Self::ImageTiff => "image/tiff",
            Self::ImageIco => "image/vnd.microsoft.icon",
            Self::ImageWebp => "image/webp",
            Self::TextCalendar => "text/calendar",
            Self::TextCss => "text/css",
            Self::TextCsv => "text/csv",
            Self::TextHtml => "text/html",
            Self::TextMarkdown => "text/markdown",
            Self::TextPlain => "text/plain",
            Self::TextXml => "text/xml",
            Self::VideoMp4 => "video/mp4",
            Self::VideoMpeg => "video/mpeg",
            Self::VideoOgg => "video/ogg",
            Self::VideoWebm => "video/webm",
        }
    }
}

/// The media type of `content` served under the extension `extension`: the
/// table entry when the extension is known, and what the content itself
/// suggests otherwise.
pub open spec fn resolved(extension: Option<Seq<char>>, content: Seq<u8>) -> Mime {
    match extension {
        Some(e) => match Extension::of(lowered(e)) {
            Some(known) => known.spec_mime(),
            None => Mime::inspect(content),
        },
        None => Mime::inspect(content),
    }
}

/// Resolves the media type of `content`, given the extension of the file it
/// came from, if any.
pub fn resolve(extension: Option<&str>, content: &[u8]) -> (m: Mime)
    ensures
        m == resolved(text_of(extension), content@),
{
    match extension {
        Some(e) => match Extension::new(e) {
            Some(known) => known.mime(),
            None => Mime::from_input(content),
        },
        None => Mime::from_input(content),
    }
}

/// A known extension decides the media type, whatever its case and whatever
/// the content; an extension that is not known counts for nothing.
pub proof fn lemma_resolved_by_extension(extension: Seq<char>, content: Seq<u8>)
    ensures
        Extension::of(lowered(extension)) matches Some(known) ==> resolved(
            Some(extension),
            content,
        ) == known.spec_mime(),
        Extension::of(lowered(extension)) is None ==> resolved(Some(extension), content)
            == resolved(None, content),
{
}

/// Content without an extension is plain text when it is non-empty,
/// well-formed UTF-8; empty or ill-formed content is an octet stream.
pub proof fn lemma_resolved_by_content(content: Seq<u8>)
    ensures
        content.len() > 0 && valid_utf8(content) ==> resolved(None, content) == Mime::TextPlain,
        !valid_utf8(content) ==> resolved(None, content) == Mime::OctetStream,
        content.len() == 0 ==> resolved(None, content) == Mime::OctetStream,
{
}

} // verus!
