//! Serving one file: the file's bytes when it could be read, and the status
//! that tells why when it could not.

use crate::response::{lemma_wire_without_body, PreparedView, Response, StatusView, WriteError};
use crate::sink::{wrote, Sink};
use crate::text::text_of;
use std::io::Error as IoError;
use vstd::prelude::*;
use vstd::string::StringSliceAdditionalSpecFns;

verus! {

/// Error occurred when processing a GET request.
#[derive(Debug)]
pub enum GetError {
    /// Failed to write to a TCP stream.
    Write {
        /// Source of the error.
        source: WriteError,
    },
}

impl GetError {
    /// The failure of the sink that lies behind the error.
    pub open spec fn cause(self) -> IoError {
        match self {
            Self::Write { source } => source.cause(),
        }
    }
}

/// The failure of the sink in the result of answering, if it has one.
pub open spec fn failure_in(r: Result<(), GetError>) -> Option<IoError> {
    match r {
        Ok(_) => None,
        Err(error) => Some(error.cause()),
    }
}

/// The kinds of failure that reading a file can end in.
#[derive(Clone, Copy, Debug, PartialEq, Eq, Structural)]
pub enum FailureKind {
    /// Nothing exists at the path.
    NotFound,
    /// The file may not be read.
    PermissionDenied,
    /// Anything else.
    Other,
}

/// A failed attempt to read a file.
#[derive(Clone, Copy, Debug)]
pub struct ReadFailure {
    /// The kind of the failure.
    pub kind: FailureKind,
    /// The operating system's error number, where it gave one.
    pub os_code: Option<i32>,
}

/// The error number of a read that met a directory in place of a file.
pub const IS_A_DIRECTORY: i32 = 21;

impl ReadFailure {
    /// Whether the failure is a refusal: permission was denied, or the
    /// path names a directory.
    pub open spec fn refused(self) -> bool {
        self.kind == FailureKind::PermissionDenied || (self.kind == FailureKind::Other
            && self.os_code == Some(IS_A_DIRECTORY))
    }

    /// The status that reports the failure: 403 for a refusal, 404 when
    /// nothing was found, and 500 for everything else.
    pub open spec fn status(self) -> StatusView {
        if self.refused() {
            StatusView::Forbidden
        } else if self.kind == FailureKind::NotFound {
            StatusView::NotFound
        } else {
            StatusView::InternalServiceError
        }
    }
}

/// The response to a request for a file: the file's bytes under status 200,
/// with the extension as the hint for the content type, or the status of
/// the failure with no body and no hint.
pub open spec fn reply(
    extension: Option<Seq<char>>,
    read: Result<Vec<u8>, ReadFailure>,
) -> PreparedView {
    match read {
        Ok(bytes) => PreparedView { status: StatusView::Success, content: bytes@, extension },
        Err(failure) => PreparedView {
            status: failure.status(),
            content: Seq::empty(),
            extension: None,
        },
    }
}

/// Writes the response to a request for a file, given the extension of the
/// file's path and what reading the file gave.
pub fn serve<S: Sink>(
    stream: &mut S,
    extension: Option<&str>,
    read: Result<Vec<u8>, ReadFailure>,
) -> (r: Result<(), GetError>)
    ensures
        wrote(*old(stream), *final(stream), failure_in(r), reply(text_of(extension), read).wire()),
{
    let written = match &read {
        Ok(bytes) => Response::new(bytes.as_slice()).extension(extension).ok().write(stream),
        Err(failure) => {
            let response = Response::new(&[]);
            assert(response@.content =~= Seq::<u8>::empty());
            let response = match failure.kind {
                FailureKind::PermissionDenied => response.forbidden(),
                FailureKind::NotFound => response.not_found(),
                FailureKind::Other => match failure.os_code {
                    Some(code) if code == IS_A_DIRECTORY => response.forbidden(),
                    _ => response.internal_service_error(),
                },
            };
            response.write(stream)
        },
    };
    match written {
        Ok(()) => Ok(()),
        Err(source) => Err(GetError::Write { source }),
    }
}

/// What `Path::extension` finds in a path.
pub uninterp spec fn path_extension(path: Seq<char>) -> Option<Seq<char>>;

/// `Path::extension` gives the part of a path's file name that follows its
/// last dot, where the file name has a dot that is not its first character.
#[verifier::external_body]
fn extension_of(path: &str) -> (r: Option<String>)
    ensures
        match r {
            Some(e) => path_extension(path@) == Some(e@),
            None => path_extension(path@) is None,
        },
{
    match std::path::Path::new(path).extension() {
        Some(e) => e.to_str().map(String::from),
        None => None,
    }
}

/// Handle a GET request: the response to a request for the file at `path`,
/// given what reading the file gave.
pub fn get<S: Sink>(stream: &mut S, path: &str, read: Result<Vec<u8>, ReadFailure>) -> (r: Result<
    (),
    GetError,
>)
    ensures
        wrote(
            *old(stream),
            *final(stream),
            failure_in(r),
            reply(path_extension(path@), read).wire(),
        ),
{
    match extension_of(path) {
        Some(extension) => serve(stream, Some(extension.as_str()), read),
        None => serve(stream, None, read),
    }
}

/// A file that does not exist is answered with status 404, no body and a
/// content length of zero, whatever the path.
pub proof fn lemma_missing_is_not_found(extension: Option<Seq<char>>, failure: ReadFailure)
    requires
        failure.kind == FailureKind::NotFound,
    ensures
        reply(extension, Err(failure)).status == StatusView::NotFound,
        reply(extension, Err(failure)).content.len() == 0,
        reply(extension, Err(failure)).wire()
            == "HTTP/1.1 404 NOT FOUND\r\nServer: picoserve/0.1.0\r\nContent-Type: application/octet-stream\r\nContent-Length: 0\r\n\r\n".spec_bytes(),
{
    reveal_strlit("HTTP/1.1 ");
    reveal_strlit("404 NOT FOUND");
    reveal_strlit("\r\nServer: picoserve/0.1.0\r\n");
    reveal_strlit("Content-Type: application/octet-stream\r\nContent-Length: 0\r\n\r\n");
    reveal_strlit(
        "HTTP/1.1 404 NOT FOUND\r\nServer: picoserve/0.1.0\r\nContent-Type: application/octet-stream\r\nContent-Length: 0\r\n\r\n",
    );
    lemma_wire_without_body(reply(extension, Err(failure)), Seq::empty());
    assert("HTTP/1.1 "@ + "404 NOT FOUND"@ + "\r\nServer: picoserve/0.1.0\r\n"@ + Seq::<char>::empty()
        + "Content-Type: application/octet-stream\r\nContent-Length: 0\r\n\r\n"@
        =~= "HTTP/1.1 404 NOT FOUND\r\nServer: picoserve/0.1.0\r\nContent-Type: application/octet-stream\r\nContent-Length: 0\r\n\r\n"@);
}

/// A file that may not be read is answered with status 403, and never with
/// status 500, whatever the path and the error number.
pub proof fn lemma_denied_is_forbidden(extension: Option<Seq<char>>, failure: ReadFailure)
    requires
        failure.kind == FailureKind::PermissionDenied,
    ensures
        reply(extension, Err(failure)).status == StatusView::Forbidden,
        reply(extension, Err(failure)).wire()
            == "HTTP/1.1 403 FORBIDDEN\r\nServer: picoserve/0.1.0\r\nContent-Type: application/octet-stream\r\nContent-Length: 0\r\n\r\n".spec_bytes(),
{
    reveal_strlit("HTTP/1.1 ");
    reveal_strlit("403 FORBIDDEN");
    reveal_strlit("\r\nServer: picoserve/0.1.0\r\n");
    reveal_strlit("Content-Type: application/octet-stream\r\nContent-Length: 0\r\n\r\n");
    reveal_strlit(
        "HTTP/1.1 403 FORBIDDEN\r\nServer: picoserve/0.1.0\r\nContent-Type: application/octet-stream\r\nContent-Length: 0\r\n\r\n",
    );
    lemma_wire_without_body(reply(extension, Err(failure)), Seq::empty());
    assert("HTTP/1.1 "@ + "403 FORBIDDEN"@ + "\r\nServer: picoserve/0.1.0\r\n"@ + Seq::<char>::empty()
        + "Content-Type: application/octet-stream\r\nContent-Length: 0\r\n\r\n"@
        =~= "HTTP/1.1 403 FORBIDDEN\r\nServer: picoserve/0.1.0\r\nContent-Type: application/octet-stream\r\nContent-Length: 0\r\n\r\n"@);
}

} // verus!
