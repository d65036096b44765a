//! The settings of the server, read from the arguments it was started with.

use crate::text::{same, texts};
use std::io::Error as IoError;
use std::num::ParseIntError;
use vstd::prelude::*;
use vstd::string::StringExecFns;

verus! {

/// Why the settings could not be read.
#[derive(Debug)]
#[allow(inconsistent_fields)]
pub enum EnvironmentError {
    /// No directory was named, and the current one could not be had.
    CurrentDirectoryInvalid { source: IoError },
    /// The flag `name` came last, without the value it asks for.
    NoMatchingValue { name: String },
    /// The value `port` of the flag `--port` is not a port number.
    PortNotInteger { port: String, source: ParseIntError },
}

impl EnvironmentError {
    /// What went wrong, in words.
    pub fn message(&self) -> (r: String)
        ensures
            r@ == match self {
                Self::CurrentDirectoryInvalid { .. } => {
                    "current directory is invalid or does not exist"@
                },
                Self::NoMatchingValue { name } => "flag '"@ + name@ + "' has no matching value"@,
                Self::PortNotInteger { port, .. } => "provided port '"@ + port@
                    + "' is not a valid integer"@,
            },
    {
        match self {
            Self::CurrentDirectoryInvalid { .. } => {
                "current directory is invalid or does not exist".to_owned()
            },
            Self::NoMatchingValue { name } => {
                let mut text = "flag '".to_owned();
                text.append(name.as_str());
                text.append("' has no matching value");
                text
            },
            Self::PortNotInteger { port, .. } => {
                let mut text = "provided port '".to_owned();
                text.append(port.as_str());
                text.append("' is not a valid integer");
                text
            },
        }
    }
}

/// The number that a string of decimal digits stands for.
pub open spec fn number(digits: Seq<char>) -> nat
    decreases digits.len(),
{
    if digits.len() == 0 {
        0
    } else {
        number(digits.drop_last()) * 10 + (digits.last() as u32 - '0' as u32) as nat
    }
}

/// Whether a text is made of decimal digits alone.
pub open spec fn all_digits(text: Seq<char>) -> bool {
    forall|i: int| 0 <= i < text.len() ==> '0' <= #[trigger] text[i] <= '9'
}

/// A text without the plus sign that it may start with.
pub open spec fn unsigned(text: Seq<char>) -> Seq<char> {
    if text.len() > 0 && text[0] == '+' {
        text.skip(1)
    } else {
        text
    }
}

/// The port that a text stands for: the text is made of decimal digits,
/// at least one, with at most a plus sign before them, and the number they
/// stand for is a port number.
pub open spec fn port_of(text: Seq<char>) -> Option<u16> {
    let digits = unsigned(text);
    if digits.len() > 0 && all_digits(digits) && number(digits) <= u16::MAX {
        Some(number(digits) as u16)
    } else {
        None
    }
}

/// `std::num::ParseIntError`: why a text is no number. It is handed on as
/// it is, and nothing in it is looked at.
#[verifier::external_type_specification]
#[verifier::external_body]
pub struct ExParseIntError(ParseIntError);

/// `str::parse` for `u16` takes decimal digits, with at most a plus sign
/// before them, and gives the number they stand for; it fails on the empty
/// text, on a sign without digits, on any other character and on a number
/// that is no `u16`.
#[verifier::external_body]
fn parse_port(text: &str) -> (r: Result<u16, ParseIntError>)
    ensures
        match r {
            Ok(port) => port_of(text@) == Some(port),
            Err(_) => port_of(text@) is None,
        },
{
    text.parse::<u16>()
}

/// What the flags of a command line say, read up to some argument.
pub struct Flags {
    /// The value of the last `--dir`.
    pub dir: Option<Seq<char>>,
    /// The value of the last `--host`.
    pub host: Option<Seq<char>>,
    /// Whether `--index` was given.
    pub index: bool,
    /// The value of the last `--port`.
    pub port: Option<u16>,
}

/// How reading a command line ends.
pub enum Reading {
    /// `--help` was given: the help text is asked for, and nothing else.
    Help,
    /// The flag `name` came last, without its value.
    NoValue { name: Seq<char> },
    /// The value `port` of a `--port` is not a port number.
    BadPort { port: Seq<char> },
    /// Every argument was read.
    Flags(Flags),
}

/// Reads the arguments from position `at` on, from left to right. `--dir`,
/// `--host` and `--port` take the next argument as their value, whatever
/// it is; an argument that is no flag is passed over. Reading stops at
/// `--help` and at the first flag that has no value or no usable one.
pub open spec fn read(args: Seq<Seq<char>>, at: int, flags: Flags) -> Reading
    decreases args.len() - at,
{
    if at < 0 || at >= args.len() {
        Reading::Flags(flags)
    } else if args[at] == "--dir"@ {
        if at + 1 >= args.len() {
            Reading::NoValue { name: args[at] }
        } else {
            read(args, at + 2, Flags { dir: Some(args[at + 1]), ..flags })
        }
    } else if args[at] == "--help"@ {
        Reading::Help
    } else if args[at] == "--host"@ {
        if at + 1 >= args.len() {
            Reading::NoValue { name: args[at] }
        } else {
            read(args, at + 2, Flags { host: Some(args[at + 1]), ..flags })
        }
    } else if args[at] == "--index"@ {
        read(args, at + 1, Flags { index: true, ..flags })
    } else if args[at] == "--port"@ {
        if at + 1 >= args.len() {
            Reading::NoValue { name: args[at] }
        } else {
            match port_of(args[at + 1]) {
                Some(port) => read(args, at + 2, Flags { port: Some(port), ..flags }),
                None => Reading::BadPort { port: args[at + 1] },
            }
        }
    } else {
        read(args, at + 1, flags)
    }
}

/// No flag read yet.
pub open spec fn no_flags() -> Flags {
    Flags { dir: None, host: None, index: false, port: None }
}

/// The port to bind to where none is given.
pub const DEFAULT_PORT: u16 = 5555;

/// The address to bind to where none is given.
pub const DEFAULT_HOST: &'static str = "127.0.0.1";

/// The settings of the server.
#[derive(Clone, Debug)]
pub struct Environment {
    dir: String,
    host: String,
    index: bool,
    port: u16,
}

/// The settings as plain values.
pub struct EnvironmentView {
    /// The directory to serve.
    pub dir: Seq<char>,
    /// The address to bind to.
    pub host: Seq<char>,
    /// Whether directories are listed.
    pub index: bool,
    /// The port to bind to.
    pub port: u16,
}

impl View for Environment {
    type V = EnvironmentView;

    closed spec fn view(&self) -> EnvironmentView {
        EnvironmentView { dir: self.dir@, host: self.host@, index: self.index, port: self.port }
    }
}

/// What a command line asks for.
#[derive(Debug)]
pub enum Invocation {
    /// The help text, and nothing else.
    Help,
    /// The server, with these settings.
    Serve(Environment),
}

/// The settings that the flags stand for, with `dir` as the directory to
/// serve: what no flag gives has its default.
pub open spec fn settled(flags: Flags, dir: Seq<char>) -> EnvironmentView {
    EnvironmentView {
        dir,
        host: match flags.host {
            Some(host) => host,
            None => DEFAULT_HOST@,
        },
        index: flags.index,
        port: match flags.port {
            Some(port) => port,
            None => DEFAULT_PORT,
        },
    }
}

impl Environment {
    /// Reads the settings from the arguments that follow the program's
    /// name. `current_dir` is the current directory, or why it cannot be
    /// had; it is looked at only where the arguments name no directory,
    /// and it is then the directory to serve.
    pub fn new(args: &[String], current_dir: Result<String, IoError>) -> (r: Result<
        Invocation,
        EnvironmentError,
    >)
        ensures
            match read(texts(args@), 0, no_flags()) {
                Reading::Help => r matches Ok(Invocation::Help),
                Reading::NoValue { name } => r matches Err(
                    EnvironmentError::NoMatchingValue { name: n },
                ) && n@ == name,
                Reading::BadPort { port } => r matches Err(
                    EnvironmentError::PortNotInteger { port: p, .. },
                ) && p@ == port,
                Reading::Flags(flags) => match flags.dir {
                    Some(dir) => r matches Ok(Invocation::Serve(env)) && env@ == settled(
                        flags,
                        dir,
                    ),
                    None => match current_dir {
                        Ok(current) => r matches Ok(Invocation::Serve(env)) && env@ == settled(
                            flags,
                            current@,
                        ),
                        Err(failure) => r matches Err(
                            EnvironmentError::CurrentDirectoryInvalid { source },
                        ) && source == failure,
                    },
                },
            },
    {
        let mut dir: Option<String> = None;
        let mut host: Option<String> = None;
        let mut index = false;
        let mut port: Option<u16> = None;
        let mut at: usize = 0;
        let ghost all = texts(args@);
        while at < args.len()
            invariant
                at <= args.len(),
                all == texts(args@),
                read(all, 0, no_flags()) == read(
                    all,
                    at as int,
                    Flags {
                        dir: match dir {
                            Some(dir) => Some(dir@),
                            None => None,
                        },
                        host: match host {
                            Some(host) => Some(host@),
                            None => None,
                        },
                        index,
                        port,
                    },
                ),
            decreases args.len() - at,
        {
            let name = args[at].as_str();
            assert(all[at as int] == name@);
            if same(name, "--dir") {
                if at + 1 >= args.len() {
                    return Err(EnvironmentError::NoMatchingValue { name: String::from_str(name) });
                }
                assert(all[at + 1] == args[at + 1]@);
                dir = Some(args[at + 1].clone());
                at += 2;
            } else if same(name, "--help") {
                return Ok(Invocation::Help);
            } else if same(name, "--host") {
                if at + 1 >= args.len() {
                    return Err(EnvironmentError::NoMatchingValue { name: String::from_str(name) });
                }
                assert(all[at + 1] == args[at + 1]@);
                host = Some(args[at + 1].clone());
                at += 2;
            } else if same(name, "--index") {
                index = true;
                at += 1;
            } else if same(name, "--port") {
                if at + 1 >= args.len() {
                    return Err(EnvironmentError::NoMatchingValue { name: String::from_str(name) });
                }
                assert(all[at + 1] == args[at + 1]@);
                match parse_port(args[at + 1].as_str()) {
                    Ok(number) => {
                        port = Some(number);
                    },
                    Err(source) => {
                        return Err(
                            EnvironmentError::PortNotInteger {
                                port: args[at + 1].clone(),
                                source,
                            },
                        );
                    },
                }
                at += 2;
            } else {
                at += 1;
            }
        }
        let dir = match dir {
            Some(dir) => dir,
            None => match current_dir {
                Ok(current) => current,
                Err(source) => {
                    return Err(EnvironmentError::CurrentDirectoryInvalid { source });
                },
            },
        };
        let host = match host {
            Some(host) => host,
            None => String::from_str(DEFAULT_HOST),
        };
        let port = match port {
            Some(port) => port,
            None => DEFAULT_PORT,
        };
        Ok(Invocation::Serve(Environment { dir, host, index, port }))
    }

    /// Retrieve a reference to the directory to serve.
    pub fn dir_ref(&self) -> (r: &str)
        ensures
            r@ == self@.dir,
    {
        self.dir.as_str()
    }

    /// Retrieve a reference to the address of the host to bind to.
    pub fn host_ref(&self) -> (r: &str)
        ensures
            r@ == self@.host,
    {
        self.host.as_str()
    }

    /// Whether to serve an index.
    pub fn index(&self) -> (r: bool)
        ensures
            r == self@.index,
    {
        self.index
    }

    /// Port to bind to.
    pub fn port(&self) -> (r: u16)
        ensures
            r == self@.port,
    {
        self.port
    }
}

} // verus!
