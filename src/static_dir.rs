//! The handler bound to a root directory.
use vstd::prelude::*;

use crate::errors::{
    io_status_of, status_of, IoKind, NotADir, ServeError, STATUS_MOVED_PERMANENTLY,
    STATUS_NOT_FOUND, STATUS_BAD_REQUEST,
};
use crate::listing::{
    collect_entries, entries_view, listing_of, response_view, DirEntryState, RawEntry, Response,
    ResponseStrategy,
};
use crate::path::{decoded_segment, extend_req_path};

verus! {

/// What the filesystem said of the path that a request names.
#[derive(Debug, Clone)]
pub enum DirProbe {
    /// Reading its metadata, or opening it as a directory, failed.
    Failed(IoKind),
    /// It is a file or another object that is not a directory.
    NotADir,
    /// It is a directory with these children, in the order they came.
    Dir(Vec<RawEntry>),
}

/// Serves the list of a directory's contents under a fixed root.
pub struct StaticDir<T> {
    /// The path under which the directories are listed.
    pub root: String,
    response_strategy: T,
}

impl<T> StaticDir<T> {
    /// The strategy that makes the answers.
    pub closed spec fn strategy(&self) -> T {
        self.response_strategy
    }

    /// The root, as text.
    pub closed spec fn root_view(&self) -> Seq<char> {
        self.root@
    }

    /// Creates the handler for `root`, answering with `response_strategy`.
    pub fn new(root: &str, response_strategy: T) -> (r: StaticDir<T>)
        ensures
            r.root_view() == root@,
            r.strategy() == response_strategy,
    {
        StaticDir { root: root.to_owned(), response_strategy }
    }

    /// The components of the filesystem path that a request names: the root,
    /// then each raw segment of the request path, percent-decoded. Fails where
    /// a segment does not decode to UTF-8 text.
    pub fn extend_req_path(&self, segments: &Vec<String>) -> (r: Result<Vec<String>, ServeError>)
        ensures
            match r {
                Ok(v) => {
                    &&& v.len() == segments.len() + 1
                    &&& v[0]@ == self.root_view()
                    &&& forall|i: int|
                        0 <= i < segments.len() ==> decoded_segment(#[trigger] segments[i]@)
                            == Some(v[i + 1]@)
                },
                Err(e) => {
                    &&& e is Decoding
                    &&& exists|i: int|
                        0 <= i < segments.len() && (#[trigger] decoded_segment(segments[i]@)) is None
                },
            },
    {
        extend_req_path(self.root.as_str(), segments)
    }

    /// Another handler's answer with this status is replaced by a listing: a
    /// permanent redirect may only add the trailing slash of a directory.
    pub fn intercepts_response(&self, status: Option<u16>) -> (r: bool)
        ensures
            r == (status == Some(STATUS_MOVED_PERMANENTLY)),
    {
        match status {
            Some(s) => s == STATUS_MOVED_PERMANENTLY,
            None => false,
        }
    }

    /// Another handler's failure with this status is replaced by a listing:
    /// no file was found, but a directory may stand there.
    pub fn intercepts_failure(&self, status: Option<u16>) -> (r: bool)
        ensures
            r == (status == Some(STATUS_NOT_FOUND)),
    {
        match status {
            Some(s) => s == STATUS_NOT_FOUND,
            None => false,
        }
    }
}

impl<T> StaticDir<T> {
    /// The listing for a request whose path was probed: a failed access
    /// becomes the error of its kind (404 for a missing path), a path that is
    /// no directory a client error (400), and a directory the description of
    /// its readable children, in the order they came.
    pub fn list_dir(&self, probe: &DirProbe) -> (r: Result<Vec<DirEntryState>, ServeError>)
        ensures
            match *probe {
                DirProbe::Failed(kind) => r matches Err(e) && e == ServeError::Io(kind)
                    && status_of(e) == io_status_of(kind),
                DirProbe::NotADir => r matches Err(e) && e is NotADir && status_of(e)
                    == STATUS_BAD_REQUEST,
                DirProbe::Dir(raws) => r matches Ok(entries) && entries_view(entries@)
                    == listing_of(raws@),
            },
    {
        match probe {
            DirProbe::Failed(kind) => Err(ServeError::Io(*kind)),
            DirProbe::NotADir => Err(ServeError::NotADir(NotADir)),
            DirProbe::Dir(raws) => Ok(collect_entries(raws)),
        }
    }
}

impl<T: ResponseStrategy> StaticDir<T> {
    /// Answers a request whose path was probed: the failures of `list_dir`,
    /// or, for a directory, the strategy's answer for its listing, handed on
    /// as it came.
    pub fn provide_dir(&self, probe: &DirProbe) -> (r: Result<Response, ServeError>)
        ensures
            match *probe {
                DirProbe::Failed(kind) => r matches Err(e) && e == ServeError::Io(kind),
                DirProbe::NotADir => r matches Err(e) && e is NotADir,
                DirProbe::Dir(raws) => response_view(r) == self.strategy().answer(listing_of(raws@)),
            },
    {
        match self.list_dir(probe) {
            Ok(entries) => self.response_strategy.make_response(entries),
            Err(e) => Err(e),
        }
    }
}

} // verus!
