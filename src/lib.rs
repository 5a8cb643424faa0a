//! Serving the list of a directory's contents.
//!
//! The library decides everything that does not touch the filesystem or the
//! network: how a request path is decoded and joined to the root, how the
//! outcome of probing that path becomes a response or an error status, which
//! directory entries are kept, how a listing is written as JSON, and when a
//! failed answer of another handler is replaced by a listing.
use vstd::prelude::*;

pub mod errors;
pub mod json;
pub mod listing;
pub mod path;
pub mod static_dir;

pub use errors::{BadString, IoKind, NotADir, ServeError};
pub use listing::{AsJson, DirEntryState, EntryMetadata, FileType, RawEntry, Response, ResponseStrategy};
pub use static_dir::{DirProbe, StaticDir};



verus! {

} // verus!
