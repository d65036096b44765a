//! The dispatcher: from the bytes of a request to a response, or to the
//! file or directory that has to be looked up first.

pub mod get;
pub mod index;

use self::get::{path_extension, GetError, ReadFailure};
use self::index::{Entry, IndexError};
use crate::response::{
    header_line, lemma_wire_without_body, Header, PreparedView, Response, StatusView, WriteError,
};
use crate::sink::{wrote, Sink};
use crate::text::{
    decode_lossy, ends_with_slash, find, lemma_encode_concat, lemma_trimmed, lossy, trimmed, until,
    white_space, CARRIAGE_RETURN, SLASH, SPACE,
};
use std::io::Error as IoError;
use vstd::prelude::*;
use vstd::slice::slice_subrange;
use vstd::string::{StringExecFns, StringSliceAdditionalSpecFns};

verus! {

/// Why a request was not answered.
#[derive(Debug)]
#[allow(inconsistent_fields)]
pub enum RequestError {
    Get { source: GetError },
    Index { source: IndexError },
    ReadFromStream { source: IoError },
    Write { source: WriteError },
}

/// The method of a request that this server answers.
#[derive(Clone, Copy, Debug, PartialEq, Eq, Structural)]
pub enum RequestedMethod {
    Get,
}

impl RequestedMethod {
    /// The method named by the first token of `buf`, the bytes before its
    /// first space.
    pub open spec fn of(buf: Seq<u8>) -> Option<Self> {
        if until(buf, SPACE) == "GET".spec_bytes() {
            Some(Self::Get)
        } else {
            None
        }
    }

    /// Reads the method of a request from its first bytes.
    pub fn from_input(buf: &[u8]) -> (r: Option<Self>)
        ensures
            r == Self::of(buf@),
    {
        let end = find(buf, SPACE);
        let token = slice_subrange(buf, 0, end);
        let get = "GET".as_bytes();
        assert(token@ =~= until(buf@, SPACE));
        if token.len() != get.len() {
            return None;
        }
        let mut i: usize = 0;
        while i < token.len()
            invariant
                i <= token.len(),
                token.len() == get.len(),
                token@ == until(buf@, SPACE),
                get@ == "GET".spec_bytes(),
                forall|j: int| 0 <= j < i ==> token@[j] == get@[j],
            decreases token.len() - i,
        {
            if token[i] != get[i] {
                return None;
            }
            i += 1;
        }
        assert(token@ =~= get@);
        Some(Self::Get)
    }
}

/// How many bytes of a request are read: a request that is longer is cut
/// off, and what the cut leaves is taken as it stands.
pub const BUFFER: usize = 1024;

/// The length of `GET /`, which stands before the target of a request.
pub const PREFIX: usize = 5;

/// The length of ` HTTP/1.1`, which stands behind the target of a request.
pub const MARKER: usize = 9;

/// The target of a request: what stands between the first `PREFIX` bytes
/// and the last `MARKER` bytes of its first line, the line ending at the
/// first carriage return. The slash that a request path starts with belongs
/// to the prefix: the target of `GET /a/b HTTP/1.1` is `a/b`, and that of
/// `GET / HTTP/1.1` is empty. A request too short to hold prefix and marker
/// has no target.
pub open spec fn target(buf: Seq<u8>) -> Option<Seq<u8>> {
    if buf.len() < PREFIX {
        None
    } else {
        let line = until(buf.skip(PREFIX as int), CARRIAGE_RETURN);
        if line.len() < MARKER {
            None
        } else {
            Some(line.take(line.len() - MARKER))
        }
    }
}

/// Cuts the target out of a request.
pub fn request_target(buf: &[u8]) -> (r: Option<&[u8]>)
    ensures
        match r {
            Some(t) => target(buf@) == Some(t@),
            None => target(buf@) is None,
        },
{
    if buf.len() < PREFIX {
        return None;
    }
    let rest = slice_subrange(buf, PREFIX, buf.len());
    let end = find(rest, CARRIAGE_RETURN);
    if end < MARKER {
        return None;
    }
    let line = slice_subrange(rest, 0, end);
    Some(slice_subrange(line, 0, end - MARKER))
}

/// What joins a directory to a name appended to it: a slash, unless the
/// directory is empty or ends with one.
pub open spec fn separator(dir: Seq<char>) -> Seq<char> {
    if dir.len() == 0 || dir.last() == '/' {
        Seq::empty()
    } else {
        seq!['/']
    }
}

/// The path that a target stands for under the served directory: the
/// directory itself for the target `/`, and otherwise the directory with
/// the decoded target appended as it stands. The empty target so stands
/// for the directory with a slash at its end.
pub open spec fn resolved(dir: Seq<char>, target: Seq<u8>) -> Seq<char> {
    if target.len() == 1 && target[0] == SLASH {
        dir
    } else {
        dir + separator(dir) + lossy(target)
    }
}

/// Appends `name` to the directory `dir`, with a slash between them where
/// `dir` needs one. A name that starts with a slash is appended like any
/// other.
pub fn join(dir: &str, name: &str) -> (r: String)
    ensures
        r@ == dir@ + separator(dir@) + name@,
{
    let mut path = String::from_str(dir);
    if !dir.is_empty() && !ends_with_slash(dir) {
        path.append("/");
        proof {
            reveal_strlit("/");
            assert("/"@ =~= seq!['/']);
        }
    }
    path.append(name);
    proof {
        assert(dir@ + Seq::<char>::empty() + name@ =~= dir@ + name@);
    }
    path
}

/// Resolves a target against the served directory. Nothing is normalised:
/// a target may name a path outside of `dir` by way of `..`.
pub fn resolve_path(dir: &str, target: &[u8]) -> (r: String)
    ensures
        r@ == resolved(dir@, target@),
{
    if target.len() == 1 && target[0] == SLASH {
        String::from_str(dir)
    } else {
        let name = decode_lossy(target);
        join(dir, name.as_str())
    }
}

/// How far the dispatcher got with a request.
#[derive(Debug)]
pub enum Outcome {
    /// The response has been written; nothing is left to do.
    Responded,
    /// The directory at `path` is to be listed.
    Directory { path: String },
    /// The file at `path` is to be served.
    File { path: String },
}

/// An `Outcome` as a plain value.
pub enum OutcomeView {
    Responded,
    Directory { path: Seq<char> },
    File { path: Seq<char> },
}

impl View for Outcome {
    type V = OutcomeView;

    open spec fn view(&self) -> OutcomeView {
        match self {
            Self::Responded => OutcomeView::Responded,
            Self::Directory { path } => OutcomeView::Directory { path: path@ },
            Self::File { path } => OutcomeView::File { path: path@ },
        }
    }
}

/// Whether a path asks for a listing: only with indexing on, and only a
/// path that ends with a slash.
pub open spec fn wants_listing(index: bool, path: Seq<char>) -> bool {
    index && path.len() > 0 && path.last() == '/'
}

/// The lookup that a path asks for.
pub open spec fn lookup_for(index: bool, path: Seq<char>) -> OutcomeView {
    if wants_listing(index, path) {
        OutcomeView::Directory { path }
    } else {
        OutcomeView::File { path }
    }
}

/// Decides between listing the directory at `path` and serving the file
/// there.
pub fn lookup(index: bool, path: &str) -> (r: Outcome)
    ensures
        r@ == lookup_for(index, path@),
{
    if index && ends_with_slash(path) {
        Outcome::Directory { path: String::from_str(path) }
    } else {
        Outcome::File { path: String::from_str(path) }
    }
}

/// Whether a request is one that is served: its method is `GET`, and its
/// first line holds a target.
pub open spec fn served(buf: Seq<u8>) -> bool {
    RequestedMethod::of(buf) is Some && target(buf) is Some
}

/// What becomes of a request: a request that is not served is answered at
/// once; any other names a path, trimmed of white space, to list or to
/// serve.
pub open spec fn dispatched(buf: Seq<u8>, dir: Seq<char>, index: bool) -> OutcomeView {
    if served(buf) {
        lookup_for(index, trimmed(resolved(dir, target(buf)->0)))
    } else {
        OutcomeView::Responded
    }
}

/// The answer to a request that is not served, be it for its method or for
/// a first line too short to hold a target: status 405, `Allow: GET`, no
/// body.
pub open spec fn refusal() -> PreparedView {
    PreparedView {
        status: StatusView::MethodNotAllowed { allow: seq!["GET".spec_bytes()] },
        content: Seq::empty(),
        extension: None,
    }
}

impl RequestError {
    /// The failure that lies behind the error: that of the read, or that of
    /// the sink.
    pub open spec fn cause(self) -> IoError {
        match self {
            Self::Get { source } => source.cause(),
            Self::Index { source } => source.cause(),
            Self::ReadFromStream { source } => source,
            Self::Write { source } => source.cause(),
        }
    }
}

/// The failure in the result of answering, if it has one.
pub open spec fn failure_in(r: Result<(), RequestError>) -> Option<IoError> {
    match r {
        Ok(_) => None,
        Err(error) => Some(error.cause()),
    }
}

/// Writes the answer to a request that is not served.
fn refuse<S: Sink>(stream: &mut S) -> (r: Result<(), RequestError>)
    ensures
        wrote(*old(stream), *final(stream), failure_in(r), refusal().wire()),
        r matches Err(error) ==> error is Write,
{
    let allow: [&[u8]; 1] = ["GET".as_bytes()];
    let response = Response::new(&[]).method_not_allowed(&allow);
    proof {
        assert(crate::response::methods(allow@) =~= seq!["GET".spec_bytes()]);
        assert(response@.content =~= Seq::<u8>::empty());
    }
    match response.write(stream) {
        Ok(()) => Ok(()),
        Err(source) => Err(RequestError::Write { source }),
    }
}

/// Takes what the one read from a connection gave and either answers the
/// request or names the file or directory to look up for the answer. Where
/// the read failed nothing is written, and the failure is handed back. A
/// request that is not served is answered here, with the refusal; for one
/// that is served nothing is written yet.
pub fn handle<S: Sink>(
    stream: &mut S,
    read: Result<&[u8], IoError>,
    dir: &str,
    index: bool,
) -> (r: Result<Outcome, RequestError>)
    ensures
        match read {
            Err(failure) => {
                &&& *final(stream) == *old(stream)
                &&& r matches Err(RequestError::ReadFromStream { source })
                &&& source == failure
            },
            Ok(buf) => match dispatched(buf@, dir@, index) {
                OutcomeView::Responded => {
                    &&& wrote(
                        *old(stream),
                        *final(stream),
                        match r {
                            Ok(_) => None,
                            Err(error) => Some(error.cause()),
                        },
                        refusal().wire(),
                    )
                    &&& r matches Ok(o) ==> o@ == OutcomeView::Responded
                    &&& r matches Err(error) ==> error is Write
                },
                other => {
                    &&& *final(stream) == *old(stream)
                    &&& r matches Ok(o)
                    &&& o@ == other
                },
            },
        },
{
    let buf = match read {
        Ok(buf) => buf,
        Err(source) => {
            return Err(RequestError::ReadFromStream { source });
        },
    };
    let target = match RequestedMethod::from_input(buf) {
        Some(RequestedMethod::Get) => request_target(buf),
        None => None,
    };
    match target {
        Some(relative) => {
            let path = resolve_path(dir, relative);
            Ok(lookup(index, path.as_str().trim()))
        },
        None => match refuse(stream) {
            Ok(()) => Ok(Outcome::Responded),
            Err(error) => Err(error),
        },
    }
}

/// What looking up a path gave.
#[derive(Debug)]
pub enum Found {
    /// What reading the file at the path gave.
    File(Result<Vec<u8>, ReadFailure>),
    /// What reading the directory at the path gave.
    Directory(Result<Vec<Entry>, IndexError>),
}

/// Answers a request with what looking up its path gave: the file, the
/// listing, or the status that tells of the failure.
pub fn complete<S: Sink>(stream: &mut S, path: &str, found: Found) -> (r: Result<
    (),
    RequestError,
>)
    ensures
        match found {
            Found::File(read) => {
                &&& wrote(
                    *old(stream),
                    *final(stream),
                    failure_in(r),
                    get::reply(path_extension(path@), read).wire(),
                )
                &&& r matches Err(e) ==> e is Get
            },
            Found::Directory(read) => {
                &&& wrote(*old(stream), *final(stream), failure_in(r), index::reply(read).wire())
                &&& r matches Err(e) ==> e matches RequestError::Index {
                    source: IndexError::WritingToStream { buf, .. },
                } && buf@ == index::page(read)
            },
        },
{
    match found {
        Found::File(read) => match get::get(stream, path, read) {
            Ok(()) => Ok(()),
            Err(source) => Err(RequestError::Get { source }),
        },
        Found::Directory(read) => match index::index(stream, read) {
            Ok(()) => Ok(()),
            Err(source) => Err(RequestError::Index { source }),
        },
    }
}

/// A request with any method but `GET`, and a `GET` request whose first
/// line is too short to hold a target, is answered with status 405, the
/// header `Allow: GET` and no body, whatever else it holds.
pub proof fn lemma_refused(buf: Seq<u8>, dir: Seq<char>, index: bool)
    requires
        RequestedMethod::of(buf) is None || target(buf) is None,
    ensures
        dispatched(buf, dir, index) == OutcomeView::Responded,
        refusal().wire()
            == "HTTP/1.1 405 METHOD NOT ALLOWED\r\nServer: picoserve/0.1.0\r\nAllow: GET\r\nContent-Type: application/octet-stream\r\nContent-Length: 0\r\n\r\n".spec_bytes(),
{
    reveal_strlit("HTTP/1.1 ");
    reveal_strlit("405 METHOD NOT ALLOWED");
    reveal_strlit("\r\nServer: picoserve/0.1.0\r\n");
    reveal_strlit("Allow: GET\r\n");
    reveal_strlit("Allow");
    reveal_strlit(": ");
    reveal_strlit("GET");
    reveal_strlit("\r\n");
    reveal_strlit("Content-Type: application/octet-stream\r\nContent-Length: 0\r\n\r\n");
    reveal_strlit(
        "HTTP/1.1 405 METHOD NOT ALLOWED\r\nServer: picoserve/0.1.0\r\nAllow: GET\r\nContent-Type: application/octet-stream\r\nContent-Length: 0\r\n\r\n",
    );
    let allow = "Allow: GET\r\n"@;
    assert(allow =~= "Allow"@ + ": "@ + "GET"@ + "\r\n"@);
    lemma_encode_concat("Allow"@, ": "@);
    lemma_encode_concat("Allow"@ + ": "@, "GET"@);
    lemma_encode_concat("Allow"@ + ": "@ + "GET"@, "\r\n"@);
    assert(refusal().status.allow_line() =~= header_line(Header::Allow, "GET".spec_bytes()));
    lemma_wire_without_body(refusal(), allow);
    assert("HTTP/1.1 "@ + "405 METHOD NOT ALLOWED"@ + "\r\nServer: picoserve/0.1.0\r\n"@ + allow
        + "Content-Type: application/octet-stream\r\nContent-Length: 0\r\n\r\n"@
        =~= "HTTP/1.1 405 METHOD NOT ALLOWED\r\nServer: picoserve/0.1.0\r\nAllow: GET\r\nContent-Type: application/octet-stream\r\nContent-Length: 0\r\n\r\n"@);
}

/// A served request whose resolved path has white space at neither end is
/// looked up under that very path: it is listed where indexing is on and
/// the path ends with a slash, and served as a file otherwise.
pub proof fn lemma_looked_up_as_resolved(buf: Seq<u8>, dir: Seq<char>, index: bool)
    requires
        served(buf),
        ({
            let path = resolved(dir, target(buf)->0);
            path.len() == 0 || (!white_space(path.first()) && !white_space(path.last()))
        }),
    ensures
        dispatched(buf, dir, index) == lookup_for(index, resolved(dir, target(buf)->0)),
{
    lemma_trimmed(resolved(dir, target(buf)->0));
}

} // verus!
