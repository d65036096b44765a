//! A minimal HTTP responder for the files of one directory.
//!
//! A request is taken through the modules in this order: [`request`] reads
//! the method and the target from the first bytes of a connection and names
//! the file or the directory that is asked for; [`request::get`] answers
//! with a file and [`request::index`] with the listing of a directory;
//! [`content_type`] finds the media type of what is served; [`response`]
//! puts status, headers and body on the wire, byte for byte, through a
//! [`sink`]. [`env`] reads the settings of the server from its arguments.
//!
//! Nothing here opens a file or a socket: what was read comes in as plain
//! values, and what is to be written goes out through a sink.

pub mod content_type;
pub mod env;
pub mod extension;
pub mod mime;
pub mod request;
pub mod response;
pub mod sink;
pub mod text;
