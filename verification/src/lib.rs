use vstd::prelude::*;
use vstd::string::StringExecFns;

pub mod text;
pub mod serial;
pub mod compression;
pub mod config;
pub mod cli;
pub mod json;
pub mod payload;
pub mod state;
pub mod lcd_driver;
pub mod display;
pub mod events;
pub mod daemon;
pub mod wizard;
pub mod render;
pub mod render_loop;
pub mod shell;

verus! {

/// Root of the RAM-disk cache that every runtime artefact must live under.
pub const CACHE_DIR: &'static str = "/run/serial_lcd_cache";

/// Errors raised by the library.
#[derive(Debug)]
pub enum Error {
    InvalidArgs(String),
    Io(IoFailure),
    Parse(String),
    ChecksumMismatch,
}

/// The parts of an I/O failure that the library reasons about.
#[derive(Debug, Clone)]
pub struct IoFailure {
    pub kind: IoKind,
    pub raw_os_error: Option<i32>,
    pub message: String,
}

/// The I/O error kinds that the library tells apart.
#[derive(Debug, Clone, Copy, PartialEq, Eq)]
pub enum IoKind {
    PermissionDenied,
    NotFound,
    TimedOut,
    WouldBlock,
    BrokenPipe,
    ConnectionReset,
    ConnectionAborted,
    InvalidInput,
    InvalidData,
    Other,
}

pub type Result<T> = core::result::Result<T, Error>;

/// The text that the error prints.
pub open spec fn error_text(e: Error) -> Seq<char> {
    match e {
        Error::InvalidArgs(m) => "invalid arguments: "@ + m@,
        Error::Io(f) => "io error: "@ + f.message@,
        Error::Parse(m) => "parse error: "@ + m@,
        Error::ChecksumMismatch => "checksum mismatch"@,
    }
}

impl Error {
    /// The text that the error prints.
    pub fn message(&self) -> (r: String)
        ensures
            r@ == error_text(*self),
    {
        match self {
            Error::InvalidArgs(m) => {
                let mut s = String::from_str("invalid arguments: ");
                s.append(m.as_str());
                s
            },
            Error::Io(f) => {
                let mut s = String::from_str("io error: ");
                s.append(f.message.as_str());
                s
            },
            Error::Parse(m) => {
                let mut s = String::from_str("parse error: ");
                s.append(m.as_str());
                s
            },
            Error::ChecksumMismatch => String::from_str("checksum mismatch"),
        }
    }
}

/// `a + b` as a new `String`.
pub fn concat2(a: &str, b: &str) -> (r: String)
    ensures
        r@ == a@ + b@,
{
    let mut s = String::from_str(a);
    s.append(b);
    s
}

/// `a + b + c` as a new `String`.
pub fn concat3(a: &str, b: &str, c: &str) -> (r: String)
    ensures
        r@ == a@ + b@ + c@,
{
    let mut s = String::from_str(a);
    s.append(b);
    s.append(c);
    s
}

/// Where a runtime file named `path` lives: an absolute path as it is, a
/// relative one under the cache directory.
pub open spec fn cache_placement(path: Seq<char>) -> Seq<char> {
    if path.len() > 0 && path[0] == '/' {
        path
    } else {
        CACHE_DIR@ + seq!['/'] + path
    }
}

/// Places a runtime file: an absolute path is kept, a relative one is put
/// under the cache directory (whether the result may be used is for
/// `payload::command::validate_cache_path` to say).
pub fn cache_path_for(path: &str) -> (r: String)
    ensures
        r@ == cache_placement(path@),
{
    let v = crate::text::chars_of(path);
    if v.len() > 0 && v[0] == '/' {
        String::from_str(path)
    } else {
        proof {
            reveal_strlit("/");
        }
        concat3(CACHE_DIR, "/", path)
    }
}

} // verus!
