//! HTTP/1.1 responses and their exact form on the wire.

use crate::content_type::{resolve, resolved};
use crate::sink::{
    failed, lemma_wrote_cut, lemma_wrote_nothing, lemma_wrote_prefix, lemma_wrote_then, wrote,
    Sink,
};
use crate::text::{
    decimal, decimal_digits, joined, lemma_encode_concat, lemma_joined_prefix, text_of,
};
use std::io::Error as IoError;
use vstd::prelude::*;
use vstd::string::StringSliceAdditionalSpecFns;
use vstd::utf8::encode_utf8;

verus! {

/// Why a response could not be written.
#[derive(Debug)]
pub enum WriteError {
    /// Failed to write data to an IO writer.
    Io {
        /// Reason for the error.
        source: IoError,
    },
}

impl WriteError {
    /// The failure of the sink that lies behind the error.
    pub open spec fn cause(self) -> IoError {
        match self {
            Self::Io { source } => source,
        }
    }

    /// What went wrong, in words.
    pub fn message(&self) -> (r: String)
        ensures
            r@ == "failed to write data to writer"@,
    {
        match self {
            Self::Io { .. } => "failed to write data to writer".to_owned(),
        }
    }
}

/// The headers a response can carry.
#[derive(Clone, Copy, Debug, PartialEq, Eq, Structural)]
pub enum Header {
    Allow,
    ContentLength,
    ContentType,
    Server,
}

impl Header {
    /// The header's name as text.
    pub open spec fn text(&self) -> Seq<char> {
        match self {
            Self::Allow => "Allow"@,
            Self::ContentLength => "Content-Length"@,
            Self::ContentType => "Content-Type"@,
            Self::Server => "Server"@,
        }
    }

    /// The header's name as it stands before the colon.
    pub open spec fn spec_name(&self) -> Seq<u8> {
        encode_utf8(self.text())
    }

    /// The header's name as it stands before the colon.
    pub fn name(&self) -> (r: &'static [u8])
        ensures
            r@ == self.spec_name(),
    {
        match self {
            Self::Allow => "Allow".as_bytes(),
            Self::ContentLength => "Content-Length".as_bytes(),
            Self::ContentType => "Content-Type".as_bytes(),
            Self::Server => "Server".as_bytes(),
        }
    }
}

/// The outcome a response reports.
#[derive(Clone, Copy, Debug)]
pub enum Status<'a> {
    Forbidden,
    InternalServiceError,
    MethodNotAllowed { allow: &'a [&'a [u8]] },
    NotFound,
    Success,
}

/// A status as a plain value: the outcome, and for a refused method the
/// methods that are allowed.
pub enum StatusView {
    Forbidden,
    InternalServiceError,
    MethodNotAllowed { allow: Seq<Seq<u8>> },
    NotFound,
    Success,
}

impl StatusView {
    /// The status code and reason phrase as text.
    pub open spec fn text(self) -> Seq<char> {
        match self {
            Self::Forbidden => "403 FORBIDDEN"@,
            Self::InternalServiceError => "500 INTERNAL SERVICE ERROR"@,
            Self::MethodNotAllowed { .. } => "405 METHOD NOT ALLOWED"@,
            Self::NotFound => "404 NOT FOUND"@,
            Self::Success => "200 OK"@,
        }
    }

    /// The status code and reason phrase of the status line.
    pub open spec fn name(self) -> Seq<u8> {
        encode_utf8(self.text())
    }

    /// The `Allow` header line: present only for a refused method with at
    /// least one allowed method to name.
    pub open spec fn allow_line(self) -> Seq<u8> {
        match self {
            Self::MethodNotAllowed { allow } if allow.len() > 0 => header_line(
                Header::Allow,
                joined(allow, ", ".spec_bytes()),
            ),
            _ => Seq::empty(),
        }
    }
}

impl View for Status<'_> {
    type V = StatusView;

    open spec fn view(&self) -> StatusView {
        match self {
            Self::Forbidden => StatusView::Forbidden,
            Self::InternalServiceError => StatusView::InternalServiceError,
            Self::MethodNotAllowed { allow } => StatusView::MethodNotAllowed {
                allow: methods(allow@),
            },
            Self::NotFound => StatusView::NotFound,
            Self::Success => StatusView::Success,
        }
    }
}

impl Status<'_> {
    /// The status code and reason phrase of the status line.
    pub fn name(&self) -> (r: &'static [u8])
        ensures
            r@ == self@.name(),
    {
        match self {
            Self::Forbidden => "403 FORBIDDEN".as_bytes(),
            Self::InternalServiceError => "500 INTERNAL SERVICE ERROR".as_bytes(),
            Self::MethodNotAllowed { .. } => "405 METHOD NOT ALLOWED".as_bytes(),
            Self::NotFound => "404 NOT FOUND".as_bytes(),
            Self::Success => "200 OK".as_bytes(),
        }
    }
}

/// The methods that a sequence of method names holds.
pub open spec fn methods(allow: Seq<&[u8]>) -> Seq<Seq<u8>> {
    Seq::new(allow.len(), |i: int| allow[i]@)
}

/// The first line of a response.
pub open spec fn status_line(status: StatusView) -> Seq<u8> {
    "HTTP/1.1 ".spec_bytes() + status.name() + "\r\n".spec_bytes()
}

/// One header line: name, colon, space, value, line end.
pub open spec fn header_line(header: Header, value: Seq<u8>) -> Seq<u8> {
    header.spec_name() + ": ".spec_bytes() + value + "\r\n".spec_bytes()
}

/// A response as a plain value.
pub struct ResponseView {
    /// The body.
    pub content: Seq<u8>,
    /// The extension of the file the body came from, if any.
    pub extension: Option<Seq<char>>,
}

/// A response with its status, as a plain value.
pub struct PreparedView {
    /// The outcome.
    pub status: StatusView,
    /// The body.
    pub content: Seq<u8>,
    /// The extension of the file the body came from, if any.
    pub extension: Option<Seq<char>>,
}

impl PreparedView {
    /// The status line and the headers, each with its line end.
    pub open spec fn head(self) -> Seq<u8> {
        status_line(self.status) + header_line(Header::Server, SERVER.spec_bytes())
            + self.status.allow_line() + header_line(
            Header::ContentType,
            encode_utf8(resolved(self.extension, self.content).spec_name()),
        ) + header_line(Header::ContentLength, decimal(self.content.len()))
    }

    /// The whole response, byte for byte: head, blank line, body.
    pub open spec fn wire(self) -> Seq<u8> {
        self.head() + "\r\n".spec_bytes() + self.content
    }
}

/// The value of the `Server` header: this software and its version.
pub const SERVER: &'static str = "picoserve/0.1.0";

impl PreparedResponse<'_> {
    /// The value of the `Server` header: this software and its version.
    pub const SERVER: &'static str = SERVER;
}

/// A response body, waiting for its status.
pub struct Response<'a> {
    content: &'a [u8],
    extension: Option<&'a str>,
}

impl View for Response<'_> {
    type V = ResponseView;

    closed spec fn view(&self) -> ResponseView {
        ResponseView { content: self.content@, extension: text_of(self.extension) }
    }
}

impl<'a> Response<'a> {
    /// A response with the given body and no extension.
    pub fn new(content: &'a [u8]) -> (r: Self)
        ensures
            r@ == (ResponseView { content: content@, extension: None }),
    {
        Self { content, extension: None }
    }

    /// Sets the extension that the content type is looked up by.
    pub fn extension(self, extension: Option<&'a str>) -> (r: Self)
        ensures
            r@ == (ResponseView { content: self@.content, extension: text_of(extension) }),
    {
        Self { content: self.content, extension }
    }

    /// A view of this response under the given status.
    pub open spec fn with(self, status: StatusView) -> PreparedView {
        PreparedView { status, content: self@.content, extension: self@.extension }
    }

    /// The response with status 200.
    pub fn ok(self) -> (r: PreparedResponse<'a>)
        ensures
            r@ == self.with(StatusView::Success),
    {
        PreparedResponse {
            content: self.content,
            extension: self.extension,
            status: Status::Success,
        }
    }

    /// The response with status 403.
    pub fn forbidden(self) -> (r: PreparedResponse<'a>)
        ensures
            r@ == self.with(StatusView::Forbidden),
    {
        PreparedResponse {
            content: self.content,
            extension: self.extension,
            status: Status::Forbidden,
        }
    }

    /// The response with status 404.
    pub fn not_found(self) -> (r: PreparedResponse<'a>)
        ensures
            r@ == self.with(StatusView::NotFound),
    {
        PreparedResponse {
            content: self.content,
            extension: self.extension,
            status: Status::NotFound,
        }
    }

    /// The response with status 405, naming the methods that are allowed.
    pub fn method_not_allowed(self, allow: &'a [&'a [u8]]) -> (r: PreparedResponse<'a>)
        ensures
            r@ == self.with(StatusView::MethodNotAllowed { allow: methods(allow@) }),
    {
        PreparedResponse {
            content: self.content,
            extension: self.extension,
            status: Status::MethodNotAllowed { allow },
        }
    }

    /// The response with status 500.
    pub fn internal_service_error(self) -> (r: PreparedResponse<'a>)
        ensures
            r@ == self.with(StatusView::InternalServiceError),
    {
        PreparedResponse {
            content: self.content,
            extension: self.extension,
            status: Status::InternalServiceError,
        }
    }
}

/// A response that is ready to be written.
pub struct PreparedResponse<'a> {
    content: &'a [u8],
    extension: Option<&'a str>,
    status: Status<'a>,
}

impl View for PreparedResponse<'_> {
    type V = PreparedView;

    closed spec fn view(&self) -> PreparedView {
        PreparedView {
            status: self.status@,
            content: self.content@,
            extension: text_of(self.extension),
        }
    }
}

/// The failure of the sink in the result of writing a response, if it
/// has one.
pub open spec fn failure_in(r: Result<(), WriteError>) -> Option<IoError> {
    match r {
        Ok(_) => None,
        Err(error) => Some(error.cause()),
    }
}

/// Writes `parts` to `buf`, separated by a comma and a space.
fn write_joined<S: Sink>(buf: &mut S, parts: &[&[u8]]) -> (r: Result<(), IoError>)
    ensures
        wrote(*old(buf), *final(buf), failed(r), joined(methods(parts@), ", ".spec_bytes())),
{
    let ghost start = *buf;
    let ghost all = methods(parts@);
    let ghost sep = ", ".spec_bytes();
    let mut idx: usize = 0;
    proof {
        assert(all.take(0) =~= Seq::<Seq<u8>>::empty());
        lemma_wrote_nothing(start);
    }
    while idx < parts.len()
        invariant
            idx <= parts.len(),
            start == *old(buf),
            all == methods(parts@),
            sep == ", ".spec_bytes(),
            wrote(start, *buf, None, joined(all.take(idx as int), sep)),
        decreases parts.len() - idx,
    {
        let ghost before = *buf;
        let ghost so_far = joined(all.take(idx as int), sep);
        let ghost next = joined(all.take(idx + 1), sep);
        proof {
            lemma_joined_prefix(all, sep, idx + 1);
            assert(all.take(idx + 1).drop_last() =~= all.take(idx as int));
            assert(all.take(idx + 1).last() == parts[idx as int]@);
        }
        if idx > 0 {
            let r = buf.write_all(", ".as_bytes());
            proof {
                lemma_wrote_then(start, before, *buf, so_far, sep, failed(r));
                if r is Err {
                    lemma_wrote_cut(start, *buf, failed(r), so_far + sep, parts[idx as int]@);
                    lemma_wrote_prefix(start, *buf, failed(r), next, joined(all, sep));
                }
            }
            if let Err(error) = r {
                return Err(error);
            }
        }
        let ghost middle = *buf;
        let r = buf.write_all(parts[idx]);
        proof {
            if idx > 0 {
                lemma_wrote_then(start, middle, *buf, so_far + sep, parts[idx as int]@, failed(r));
            } else {
                assert(so_far =~= Seq::<u8>::empty());
                assert(next =~= parts[idx as int]@);
                lemma_wrote_then(start, middle, *buf, so_far, parts[idx as int]@, failed(r));
                assert(so_far + parts[idx as int]@ =~= next);
            }
            if r is Err {
                lemma_wrote_prefix(start, *buf, failed(r), next, joined(all, sep));
            }
        }
        if let Err(error) = r {
            return Err(error);
        }
        idx += 1;
    }
    proof {
        assert(all.take(idx as int) =~= all);
    }
    Ok(())
}

impl PreparedResponse<'_> {
    /// Writes the whole response to `buf`: on success `buf` has received
    /// exactly its wire form, and on failure some prefix of it. The failure
    /// handed back is the one that the sink gave, and nothing is written
    /// after it.
    pub fn write<S: Sink>(&self, buf: &mut S) -> (r: Result<(), WriteError>)
        ensures
            wrote(*old(buf), *final(buf), failure_in(r), self@.wire()),
    {
        match self.write_inner(buf) {
            Ok(()) => Ok(()),
            Err(source) => Err(WriteError::Io { source }),
        }
    }

    /// Writes the response piece by piece, stopping at the first failure.
    fn write_inner<S: Sink>(&self, buf: &mut S) -> (r: Result<(), IoError>)
        ensures
            wrote(*old(buf), *final(buf), failed(r), self@.wire()),
    {
        let ghost start = *buf;
        let ghost wire = self@.wire();
        let ghost status = status_line(self@.status);
        let ghost server = header_line(Header::Server, SERVER.spec_bytes());
        let ghost allow = self@.status.allow_line();
        let ghost kind = header_line(
            Header::ContentType,
            encode_utf8(resolved(self@.extension, self@.content).spec_name()),
        );
        let ghost length = header_line(Header::ContentLength, decimal(self@.content.len()));
        let ghost blank = "\r\n".spec_bytes();
        assert(wire == status + server + allow + kind + length + blank + self@.content);

        let r = Self::status_line(buf, &self.status);
        proof {
            if r is Err {
                lemma_wrote_cut(
                    start,
                    *buf,
                    failed(r),
                    status,
                    server + allow + kind + length + blank + self@.content,
                );
                assert(status + (server + allow + kind + length + blank + self@.content) =~= wire);
            }
        }
        if let Err(error) = r {
            return Err(error);
        }
        let ghost mid = *buf;
        let r = Self::header(buf, Header::Server, SERVER.as_bytes());
        proof {
            lemma_wrote_then(start, mid, *buf, status, server, failed(r));
            if r is Err {
                lemma_wrote_cut(
                    start,
                    *buf,
                    failed(r),
                    status + server,
                    allow + kind + length + blank + self@.content,
                );
                assert(status + server + (allow + kind + length + blank + self@.content) =~= wire);
            }
        }
        if let Err(error) = r {
            return Err(error);
        }
        let ghost mid = *buf;
        let r = Self::allow_line(buf, &self.status);
        proof {
            lemma_wrote_then(start, mid, *buf, status + server, allow, failed(r));
            if r is Err {
                lemma_wrote_cut(
                    start,
                    *buf,
                    failed(r),
                    status + server + allow,
                    kind + length + blank + self@.content,
                );
                assert(status + server + allow + (kind + length + blank + self@.content) =~= wire);
            }
        }
        if let Err(error) = r {
            return Err(error);
        }
        let ghost mid = *buf;
        let mime = resolve(self.extension, self.content);
        let r = Self::header(buf, Header::ContentType, mime.name().as_bytes());
        proof {
            lemma_wrote_then(start, mid, *buf, status + server + allow, kind, failed(r));
            if r is Err {
                lemma_wrote_cut(
                    start,
                    *buf,
                    failed(r),
                    status + server + allow + kind,
                    length + blank + self@.content,
                );
                assert(status + server + allow + kind + (length + blank + self@.content) =~= wire);
            }
        }
        if let Err(error) = r {
            return Err(error);
        }
        let ghost mid = *buf;
        let digits = decimal_digits(self.content.len());
        let r = Self::header(buf, Header::ContentLength, digits.as_slice());
        proof {
            lemma_wrote_then(start, mid, *buf, status + server + allow + kind, length, failed(r));
            if r is Err {
                lemma_wrote_cut(
                    start,
                    *buf,
                    failed(r),
                    status + server + allow + kind + length,
                    blank + self@.content,
                );
                assert(status + server + allow + kind + length + (blank + self@.content) =~= wire);
            }
        }
        if let Err(error) = r {
            return Err(error);
        }
        let ghost mid = *buf;
        let r = buf.write_all("\r\n".as_bytes());
        proof {
            lemma_wrote_then(
                start,
                mid,
                *buf,
                status + server + allow + kind + length,
                blank,
                failed(r),
            );
            if r is Err {
                lemma_wrote_cut(
                    start,
                    *buf,
                    failed(r),
                    status + server + allow + kind + length + blank,
                    self@.content,
                );
            }
        }
        if let Err(error) = r {
            return Err(error);
        }
        let ghost mid = *buf;
        let r = buf.write_all(self.content);
        proof {
            lemma_wrote_then(
                start,
                mid,
                *buf,
                status + server + allow + kind + length + blank,
                self@.content,
                failed(r),
            );
        }
        r
    }

    /// Writes the status line.
    fn status_line<S: Sink>(buf: &mut S, status: &Status<'_>) -> (r: Result<(), IoError>)
        ensures
            wrote(*old(buf), *final(buf), failed(r), status_line(status@)),
    {
        let ghost start = *buf;
        let ghost protocol = "HTTP/1.1 ".spec_bytes();
        let ghost name = status@.name();
        let ghost end = "\r\n".spec_bytes();
        let r = buf.write_all("HTTP/1.1 ".as_bytes());
        proof {
            if r is Err {
                lemma_wrote_cut(start, *buf, failed(r), protocol, name + end);
                assert(protocol + (name + end) =~= protocol + name + end);
            }
        }
        if let Err(error) = r {
            return Err(error);
        }
        let ghost mid = *buf;
        let r = buf.write_all(status.name());
        proof {
            lemma_wrote_then(start, mid, *buf, protocol, name, failed(r));
            if r is Err {
                lemma_wrote_cut(start, *buf, failed(r), protocol + name, end);
            }
        }
        if let Err(error) = r {
            return Err(error);
        }
        let ghost mid = *buf;
        let r = buf.write_all("\r\n".as_bytes());
        proof {
            lemma_wrote_then(start, mid, *buf, protocol + name, end, failed(r));
        }
        r
    }

    /// Writes the `Allow` header of a refused method that names at least
    /// one allowed method, and nothing otherwise.
    fn allow_line<S: Sink>(buf: &mut S, status: &Status<'_>) -> (r: Result<(), IoError>)
        ensures
            wrote(*old(buf), *final(buf), failed(r), status@.allow_line()),
    {
        if let Status::MethodNotAllowed { allow } = status {
            if !allow.is_empty() {
                let ghost start = *buf;
                let ghost name = Header::Allow.spec_name() + ": ".spec_bytes();
                let ghost value = joined(methods(allow@), ", ".spec_bytes());
                let ghost end = "\r\n".spec_bytes();
                let list = |buf: &mut S| -> (out: Result<(), IoError>)
                    ensures
                        wrote(
                            *old(buf),
                            *final(buf),
                            failed(out),
                            joined(methods(allow@), ", ".spec_bytes()),
                        ),
                {
                    write_joined(buf, allow)
                };
                let r = Self::header_with(buf, Header::Allow, list);
                proof {
                    lemma_header_line(start, *buf, failed(r), name, value, end);
                }
                return r;
            }
        }
        proof {
            lemma_wrote_nothing(*buf);
        }
        Ok(())
    }

    /// Writes one header line with the given value.
    pub fn header<S: Sink>(buf: &mut S, header: Header, value: &[u8]) -> (r: Result<(), IoError>)
        ensures
            wrote(*old(buf), *final(buf), failed(r), header_line(header, value@)),
    {
        let ghost start = *buf;
        let ghost name = header.spec_name() + ": ".spec_bytes();
        let ghost end = "\r\n".spec_bytes();
        let plain = |buf: &mut S| -> (out: Result<(), IoError>)
            ensures
                wrote(*old(buf), *final(buf), failed(out), value@),
        {
            buf.write_all(value)
        };
        let r = Self::header_with(buf, header, plain);
        proof {
            lemma_header_line(start, *buf, failed(r), name, value@, end);
        }
        r
    }

    /// Writes one header line whose value is whatever `f` writes: the
    /// header's name, a colon and a space, then `f`'s output, then the line
    /// end. Stops at the first failure, be it the sink's or `f`'s, which is
    /// then handed on as it is.
    pub fn header_with<S: Sink, F: FnOnce(&mut S) -> Result<(), IoError>>(
        buf: &mut S,
        header: Header,
        f: F,
    ) -> (r: Result<(), IoError>)
        requires
            forall|s: &mut S| call_requires(f, (s,)),
        ensures
            ({
                ||| r is Err && wrote(
                    *old(buf),
                    *final(buf),
                    failed(r),
                    header.spec_name() + ": ".spec_bytes(),
                )
                ||| exists|s: &mut S, out: Result<(), IoError>|
                    #![trigger call_ensures(f, (s,), out)]
                    {
                        &&& call_ensures(f, (s,), out)
                        &&& wrote(*old(buf), *s, None, header.spec_name() + ": ".spec_bytes())
                        &&& out is Ok ==> wrote(
                            *final(s),
                            *final(buf),
                            failed(r),
                            "\r\n".spec_bytes(),
                        )
                        &&& out is Err ==> *final(buf) == *final(s) && r == out
                    }
            }),
    {
        let ghost start = *buf;
        let ghost name = header.spec_name();
        let ghost colon = ": ".spec_bytes();
        let r = buf.write_all(header.name());
        proof {
            if r is Err {
                lemma_wrote_cut(start, *buf, failed(r), name, colon);
            }
        }
        if let Err(error) = r {
            return Err(error);
        }
        let ghost mid = *buf;
        let r = buf.write_all(": ".as_bytes());
        proof {
            lemma_wrote_then(start, mid, *buf, name, colon, failed(r));
        }
        if let Err(error) = r {
            return Err(error);
        }
        match f(buf) {
            Ok(()) => buf.write_all("\r\n".as_bytes()),
            Err(error) => Err(error),
        }
    }
}

/// What a header line does to a sink, given what its three steps did: the
/// name with colon and space went out whole or in part, then the value,
/// then the line end.
proof fn lemma_header_line<S: Sink>(
    start: S,
    end: S,
    failure: Option<IoError>,
    name: Seq<u8>,
    value: Seq<u8>,
    line_end: Seq<u8>,
)
    requires
        ({
            ||| failure is Some && wrote(start, end, failure, name)
            ||| exists|a: S, b: S, inner: Option<IoError>|
                #![trigger wrote(a, b, inner, value)]
                {
                    &&& wrote(start, a, None, name)
                    &&& wrote(a, b, inner, value)
                    &&& inner is None ==> wrote(b, end, failure, line_end)
                    &&& inner is Some ==> end == b && failure == inner
                }
        }),
    ensures
        wrote(start, end, failure, name + value + line_end),
{
    if failure is Some && wrote(start, end, failure, name) {
        lemma_wrote_cut(start, end, failure, name, value + line_end);
        assert(name + (value + line_end) =~= name + value + line_end);
    } else {
        let (a, b, inner) = choose|a: S, b: S, inner: Option<IoError>|
            #![trigger wrote(a, b, inner, value)]
            {
                &&& wrote(start, a, None, name)
                &&& wrote(a, b, inner, value)
                &&& inner is None ==> wrote(b, end, failure, line_end)
                &&& inner is Some ==> end == b && failure == inner
            };
        lemma_wrote_then(start, a, b, name, value, inner);
        if inner is None {
            lemma_wrote_then(start, b, end, name + value, line_end, failure);
        } else {
            lemma_wrote_cut(start, end, failure, name + value, line_end);
        }
    }
}

/// A header line whose value is text, as text.
proof fn lemma_header_text(header: Header, value: Seq<char>)
    ensures
        header_line(header, encode_utf8(value)) == encode_utf8(
            header.text() + ": "@ + value + "\r\n"@,
        ),
{
    lemma_encode_concat(header.text(), ": "@);
    lemma_encode_concat(header.text() + ": "@, value);
    lemma_encode_concat(header.text() + ": "@ + value, "\r\n"@);
}

/// The head of a response and its blank line, as the text of their parts.
proof fn lemma_head_text(view: PreparedView, allow: Seq<char>, length: Seq<char>)
    requires
        view.status.allow_line() == encode_utf8(allow),
        decimal(view.content.len()) == encode_utf8(length),
    ensures
        view.head() + "\r\n".spec_bytes() == encode_utf8(
            ("HTTP/1.1 "@ + view.status.text() + "\r\n"@) + ("Server"@ + ": "@ + "picoserve/0.1.0"@
                + "\r\n"@) + allow + ("Content-Type"@ + ": "@ + resolved(
                view.extension,
                view.content,
            ).spec_name() + "\r\n"@) + ("Content-Length"@ + ": "@ + length + "\r\n"@) + "\r\n"@,
        ),
{
    let status = view.status.text();
    let kind = resolved(view.extension, view.content).spec_name();
    let first = "HTTP/1.1 "@ + status + "\r\n"@;
    let server = "Server"@ + ": "@ + "picoserve/0.1.0"@ + "\r\n"@;
    let content_type = "Content-Type"@ + ": "@ + kind + "\r\n"@;
    let content_length = "Content-Length"@ + ": "@ + length + "\r\n"@;
    assert(status_line(view.status) == encode_utf8(first)) by {
        lemma_encode_concat("HTTP/1.1 "@, status);
        lemma_encode_concat("HTTP/1.1 "@ + status, "\r\n"@);
    }
    lemma_header_text(Header::Server, "picoserve/0.1.0"@);
    lemma_header_text(Header::ContentType, kind);
    lemma_header_text(Header::ContentLength, length);
    lemma_encode_concat(first, server);
    lemma_encode_concat(first + server, allow);
    lemma_encode_concat(first + server + allow, content_type);
    lemma_encode_concat(first + server + allow + content_type, content_length);
    lemma_encode_concat(first + server + allow + content_type + content_length, "\r\n"@);
}

/// The fixed texts of a head, joined from their words.
proof fn lemma_head_words()
    ensures
        "\r\n"@ + ("Server"@ + ": "@ + "picoserve/0.1.0"@ + "\r\n"@)
            == "\r\nServer: picoserve/0.1.0\r\n"@,
        "Content-Type"@ + ": "@ == "Content-Type: "@,
        "\r\n"@ + ("Content-Length"@ + ": "@) == "\r\nContent-Length: "@,
        "\r\n"@ + "\r\n"@ == "\r\n\r\n"@,
{
    reveal_strlit("\r\n");
    reveal_strlit("Server");
    reveal_strlit(": ");
    reveal_strlit("picoserve/0.1.0");
    reveal_strlit("\r\nServer: picoserve/0.1.0\r\n");
    reveal_strlit("Content-Type");
    reveal_strlit("Content-Type: ");
    reveal_strlit("Content-Length");
    reveal_strlit("\r\nContent-Length: ");
    reveal_strlit("\r\n\r\n");
    assert("\r\n"@ + ("Server"@ + ": "@ + "picoserve/0.1.0"@ + "\r\n"@)
        =~= "\r\nServer: picoserve/0.1.0\r\n"@);
    assert("Content-Type"@ + ": "@ =~= "Content-Type: "@);
    assert("\r\n"@ + ("Content-Length"@ + ": "@) =~= "\r\nContent-Length: "@);
    assert("\r\n"@ + "\r\n"@ =~= "\r\n\r\n"@);
}

/// Texts joined in groups read the same as joined one after another.
proof fn lemma_regroup(
    front: Seq<char>,
    end: Seq<char>,
    server: Seq<char>,
    allow: Seq<char>,
    kind_name: Seq<char>,
    kind: Seq<char>,
    length_name: Seq<char>,
    length: Seq<char>,
)
    ensures
        (front + end) + server + allow + (kind_name + kind + end) + (length_name + length + end)
            + end == front + (end + server) + allow + kind_name + kind + (end + length_name)
            + length + (end + end),
{
    assert((front + end) + server + allow + (kind_name + kind + end) + (length_name + length + end)
        + end =~= front + (end + server) + allow + kind_name + kind + (end + length_name) + length
        + (end + end));
}

/// The wire form of a response, spelled out as text: the status line, the
/// `Server` header, the `Allow` header where there is one, the two headers
/// for the content, a blank line, the body.
pub proof fn lemma_wire_text(view: PreparedView, allow: Seq<char>, length: Seq<char>)
    requires
        view.status.allow_line() == encode_utf8(allow),
        decimal(view.content.len()) == encode_utf8(length),
    ensures
        view.wire() == encode_utf8(
            "HTTP/1.1 "@ + view.status.text() + "\r\nServer: picoserve/0.1.0\r\n"@ + allow
                + "Content-Type: "@ + resolved(view.extension, view.content).spec_name()
                + "\r\nContent-Length: "@ + length + "\r\n\r\n"@,
        ) + view.content,
{
    lemma_head_text(view, allow, length);
    lemma_head_words();
    lemma_regroup(
        "HTTP/1.1 "@ + view.status.text(),
        "\r\n"@,
        "Server"@ + ": "@ + "picoserve/0.1.0"@ + "\r\n"@,
        allow,
        "Content-Type"@ + ": "@,
        resolved(view.extension, view.content).spec_name(),
        "Content-Length"@ + ": "@,
        length,
    );
}

/// The wire form of a response without a body: the response ends with the
/// blank line, and gives its length as zero and its content as an octet
/// stream.
pub proof fn lemma_wire_without_body(view: PreparedView, allow: Seq<char>)
    requires
        view.status.allow_line() == encode_utf8(allow),
        view.content == Seq::<u8>::empty(),
        view.extension is None,
    ensures
        view.wire() == encode_utf8(
            "HTTP/1.1 "@ + view.status.text() + "\r\nServer: picoserve/0.1.0\r\n"@ + allow
                + "Content-Type: application/octet-stream\r\nContent-Length: 0\r\n\r\n"@,
        ),
{
    reveal_strlit("0");
    reveal_strlit("application/octet-stream");
    reveal_strlit("Content-Type: ");
    reveal_strlit("\r\nContent-Length: ");
    reveal_strlit("\r\n\r\n");
    reveal_strlit("Content-Type: application/octet-stream\r\nContent-Length: 0\r\n\r\n");
    let zero = "0"@;
    let kind = "application/octet-stream"@;
    assert(vstd::utf8::is_ascii_chars(zero));
    vstd::utf8::is_ascii_chars_encode_utf8(zero);
    assert(decimal(0) =~= encode_utf8(zero));
    lemma_wire_text(view, allow, zero);
    let front = "HTTP/1.1 "@ + view.status.text() + "\r\nServer: picoserve/0.1.0\r\n"@ + allow;
    assert(front + "Content-Type: "@ + kind + "\r\nContent-Length: "@ + zero + "\r\n\r\n"@ =~= front
        + "Content-Type: application/octet-stream\r\nContent-Length: 0\r\n\r\n"@);
    assert(view.wire() =~= encode_utf8(
        front + "Content-Type: application/octet-stream\r\nContent-Length: 0\r\n\r\n"@,
    ));
}

} // verus!
