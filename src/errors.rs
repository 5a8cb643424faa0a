//! Failures of a request and the HTTP status each one is answered with.
use vstd::prelude::*;

verus! {

pub const STATUS_OK: u16 = 200;

pub const STATUS_MOVED_PERMANENTLY: u16 = 301;

pub const STATUS_BAD_REQUEST: u16 = 400;

pub const STATUS_FORBIDDEN: u16 = 403;

pub const STATUS_NOT_FOUND: u16 = 404;

pub const STATUS_INTERNAL_SERVER_ERROR: u16 = 500;

/// The requested path exists but is not a directory.
#[derive(Debug, Clone, Copy, PartialEq, Eq, Structural)]
pub struct NotADir;

impl NotADir {
    /// A short description of the failure.
    pub fn description(&self) -> (r: &'static str)
        ensures
            r@ == "Requested entry is file"@,
    {
        "Requested entry is file"
    }
}

/// A piece of text (a path segment or a file name) that is not valid UTF-8.
#[derive(Debug, Clone)]
pub struct BadString {
    desc: String,
}

impl BadString {
    pub closed spec fn spec_desc(&self) -> Seq<char> {
        self.desc@
    }

    /// Creates the failure with the given description.
    pub fn new(desc: &str) -> (r: BadString)
        ensures
            r.spec_desc() == desc@,
    {
        BadString { desc: desc.to_owned() }
    }

    /// The description given at construction.
    pub fn description(&self) -> (r: &str)
        ensures
            r@ == self.spec_desc(),
    {
        self.desc.as_str()
    }
}

/// The kind of a failed filesystem access, as far as the status depends on it.
#[derive(Debug, Clone, Copy, PartialEq, Eq, Structural)]
pub enum IoKind {
    NotFound,
    PermissionDenied,
    Other,
}

/// Why a request could not be answered with a listing.
#[derive(Debug, Clone)]
pub enum ServeError {
    /// The path resolves to a file or another object that is not a directory.
    NotADir(NotADir),
    /// Reading the filesystem failed.
    Io(IoKind),
    /// A segment of the request path does not decode to text.
    Decoding(BadString),
    /// The listing could not be encoded.
    Serialization,
}

/// The status that answers a failed filesystem access of the given kind.
pub open spec fn io_status_of(kind: IoKind) -> u16 {
    match kind {
        IoKind::NotFound => STATUS_NOT_FOUND,
        IoKind::PermissionDenied => STATUS_FORBIDDEN,
        IoKind::Other => STATUS_INTERNAL_SERVER_ERROR,
    }
}

/// The status that answers a request that failed with `e`.
pub open spec fn status_of(e: ServeError) -> u16 {
    match e {
        ServeError::NotADir(_) => STATUS_BAD_REQUEST,
        ServeError::Io(kind) => io_status_of(kind),
        ServeError::Decoding(_) => STATUS_INTERNAL_SERVER_ERROR,
        ServeError::Serialization => STATUS_INTERNAL_SERVER_ERROR,
    }
}

/// Maps the kind of a failed filesystem access to its status: a missing
/// entry is 404, a refused one 403, anything else 500.
pub fn io_status(kind: IoKind) -> (r: u16)
    ensures
        r == io_status_of(kind),
{
    match kind {
        IoKind::NotFound => STATUS_NOT_FOUND,
        IoKind::PermissionDenied => STATUS_FORBIDDEN,
        IoKind::Other => STATUS_INTERNAL_SERVER_ERROR,
    }
}

impl ServeError {
    /// The status of the single error response that answers this failure.
    pub fn status(&self) -> (r: u16)
        ensures
            r == status_of(*self),
    {
        match self {
            ServeError::NotADir(_) => STATUS_BAD_REQUEST,
            ServeError::Io(kind) => io_status(*kind),
            ServeError::Decoding(_) => STATUS_INTERNAL_SERVER_ERROR,
            ServeError::Serialization => STATUS_INTERNAL_SERVER_ERROR,
        }
    }
}

} // verus!
