//! Directory entries, the listing built from them, and its JSON form.
use vstd::prelude::*;

use crate::errors::{ServeError, STATUS_OK};
use crate::json::{encode_listing, lemma_listing_round_trip, listing_json, parse_listing};

verus! {

/// What kind of filesystem object an entry is.
#[derive(Debug, Clone, Copy, PartialEq, Eq, Structural)]
pub enum FileType {
    File,
    Dir,
    Symlink,
}

/// The description of one child of a listed directory.
#[derive(Debug, Clone)]
pub struct DirEntryState {
    pub file_type: FileType,
    pub file_name: String,
    pub size: u64,
    pub creation_time: Option<u64>,
    pub last_modification_time: u64,
    pub last_access_time: u64,
}

/// The mathematical value of a `DirEntryState`.
pub struct EntryView {
    pub file_type: FileType,
    pub file_name: Seq<char>,
    pub size: u64,
    pub creation_time: Option<u64>,
    pub last_modification_time: u64,
    pub last_access_time: u64,
}

impl View for DirEntryState {
    type V = EntryView;

    open spec fn view(&self) -> EntryView {
        EntryView {
            file_type: self.file_type,
            file_name: self.file_name@,
            size: self.size,
            creation_time: self.creation_time,
            last_modification_time: self.last_modification_time,
            last_access_time: self.last_access_time,
        }
    }
}

/// The values of a sequence of entries.
pub open spec fn entries_view(l: Seq<DirEntryState>) -> Seq<EntryView> {
    l.map_values(|e: DirEntryState| e@)
}

/// What was read of an entry's metadata: its size and its times in seconds
/// since 1970.
#[derive(Debug, Clone, Copy, PartialEq, Eq, Structural)]
pub struct EntryMetadata {
    pub size: u64,
    pub creation_time: Option<u64>,
    pub last_modification_time: u64,
    pub last_access_time: u64,
}

/// One child of a directory as the filesystem yielded it. Each part is
/// `None` where reading it failed (a name that is not valid UTF-8 included).
#[derive(Debug, Clone)]
pub struct RawEntry {
    pub file_name: Option<String>,
    pub file_type: Option<FileType>,
    pub metadata: Option<EntryMetadata>,
}

/// Every part of the entry could be read.
pub open spec fn readable(raw: RawEntry) -> bool {
    &&& raw.file_name is Some
    &&& raw.file_type is Some
    &&& raw.metadata is Some
}

/// The description of a readable entry.
pub open spec fn descriptor_of(raw: RawEntry) -> EntryView
    recommends
        readable(raw),
{
    let m = raw.metadata->Some_0;
    EntryView {
        file_type: raw.file_type->Some_0,
        file_name: raw.file_name->Some_0@,
        size: m.size,
        creation_time: m.creation_time,
        last_modification_time: m.last_modification_time,
        last_access_time: m.last_access_time,
    }
}

/// The listing of a directory whose children are `raws`: the readable ones,
/// described, in the order they came; the others left out.
pub open spec fn listing_of(raws: Seq<RawEntry>) -> Seq<EntryView>
    decreases raws.len(),
{
    if raws.len() == 0 {
        Seq::empty()
    } else {
        let prev = listing_of(raws.drop_last());
        if readable(raws.last()) {
            prev.push(descriptor_of(raws.last()))
        } else {
            prev
        }
    }
}

/// The kind of an object from the three tests of std's `FileType`; `None`
/// for an object that is none of the three (a socket, a device).
pub fn file_type_of(is_file: bool, is_dir: bool, is_symlink: bool) -> (r: Option<FileType>)
    ensures
        r == (if is_file {
            Some(FileType::File)
        } else if is_dir {
            Some(FileType::Dir)
        } else if is_symlink {
            Some(FileType::Symlink)
        } else {
            None
        }),
{
    if is_file {
        Some(FileType::File)
    } else if is_dir {
        Some(FileType::Dir)
    } else if is_symlink {
        Some(FileType::Symlink)
    } else {
        None
    }
}

impl DirEntryState {
    /// Describes an entry, or gives `None` where a part of it could not be
    /// read.
    pub fn from_entry(raw: &RawEntry) -> (r: Option<DirEntryState>)
        ensures
            match r {
                Some(e) => readable(*raw) && e@ == descriptor_of(*raw),
                None => !readable(*raw),
            },
    {
        match (&raw.file_name, raw.file_type, raw.metadata) {
            (Some(file_name), Some(file_type), Some(m)) => Some(
                DirEntryState {
                    file_type,
                    file_name: file_name.clone(),
                    size: m.size,
                    creation_time: m.creation_time,
                    last_modification_time: m.last_modification_time,
                    last_access_time: m.last_access_time,
                },
            ),
            _ => None,
        }
    }
}

/// Keeps the entries that could be read, in order, and describes them.
pub fn collect_entries(raws: &Vec<RawEntry>) -> (r: Vec<DirEntryState>)
    ensures
        entries_view(r@) == listing_of(raws@),
{
    let mut out: Vec<DirEntryState> = Vec::new();
    let mut i: usize = 0;
    while i < raws.len()
        invariant
            i <= raws.len(),
            entries_view(out@) == listing_of(raws@.take(i as int)),
        decreases raws.len() - i,
    {
        assert(raws@.take(i + 1).drop_last() =~= raws@.take(i as int));
        match DirEntryState::from_entry(&raws[i]) {
            Some(e) => {
                out.push(e);
                assert(entries_view(out@) =~= listing_of(raws@.take(i + 1)));
            },
            None => {
                assert(entries_view(out@) =~= listing_of(raws@.take(i + 1)));
            },
        }
        i = i + 1;
    }
    assert(raws@.take(raws.len() as int) =~= raws@);
    out
}

/// When every child of a directory can be read, the listing describes each
/// of them, in order, and its JSON array reads back as exactly that many
/// entries.
pub proof fn lemma_readable_entries_all_listed(raws: Seq<RawEntry>)
    requires
        forall|i: int| 0 <= i < raws.len() ==> readable(#[trigger] raws[i]),
    ensures
        listing_of(raws).len() == raws.len(),
        forall|i: int| 0 <= i < raws.len() ==> listing_of(raws)[i] == descriptor_of(#[trigger] raws[i]),
        parse_listing(listing_json(listing_of(raws))) matches Some(l) && l.len() == raws.len(),
    decreases raws.len(),
{
    if raws.len() > 0 {
        let prev = raws.drop_last();
        assert forall|i: int| 0 <= i < prev.len() implies readable(#[trigger] prev[i]) by {
            assert(prev[i] == raws[i]);
        }
        lemma_readable_entries_all_listed(prev);
        assert(readable(raws[raws.len() - 1]));
        assert forall|i: int| 0 <= i < raws.len() implies listing_of(raws)[i] == descriptor_of(
            #[trigger] raws[i],
        ) by {
            if i < raws.len() - 1 {
                assert(prev[i] == raws[i]);
            }
        }
    }
    lemma_listing_round_trip(listing_of(raws));
}

/// A successful answer: its status, its content type and its body.
#[derive(Debug, Clone)]
pub struct Response {
    pub status: u16,
    pub content_type: String,
    pub body: String,
}

/// The value of an answer: status, content type and body, or the failure.
pub open spec fn response_view(r: Result<Response, ServeError>) -> Result<
    (u16, Seq<char>, Seq<char>),
    ServeError,
> {
    match r {
        Ok(resp) => Ok((resp.status, resp.content_type@, resp.body@)),
        Err(e) => Err(e),
    }
}

/// Turns the listing of a directory into the answer to the request. Users
/// of the library implement it for the formats they serve.
pub trait ResponseStrategy {
    /// The answer of this strategy for a directory whose listing is
    /// `entries`. Strategies written outside verified code need not define
    /// it; no proof of this library speaks of them.
    open spec fn answer(&self, entries: Seq<EntryView>) -> Result<(u16, Seq<char>, Seq<char>), ServeError> {
        Err(ServeError::Serialization)
    }

    /// Creates the answer from the readable entries of the directory, in the
    /// order they came.
    fn make_response(&self, entries: Vec<DirEntryState>) -> (r: Result<Response, ServeError>)
        ensures
            response_view(r) == self.answer(entries_view(entries@)),
    ;
}

/// The content type of a listing written as JSON.
pub open spec fn json_content_type() -> Seq<char> {
    "application/json; charset=utf-8"@
}

/// Answers with the listing as a JSON array (see `encode_listing`), with
/// status 200. The entries that could not be read are already left out.
#[derive(Debug, Clone, Copy)]
pub struct AsJson;

impl AsJson {
    /// The JSON answer for `entries`: status 200 and the listing as a JSON
    /// array.
    pub fn json_response(&self, entries: &Vec<DirEntryState>) -> (r: Response)
        ensures
            r.status == STATUS_OK,
            r.content_type@ == json_content_type(),
            r.body@ == listing_json(entries_view(entries@)),
    {
        Response {
            status: STATUS_OK,
            content_type: "application/json; charset=utf-8".to_owned(),
            body: encode_listing(entries),
        }
    }
}

impl ResponseStrategy for AsJson {
    open spec fn answer(&self, entries: Seq<EntryView>) -> Result<(u16, Seq<char>, Seq<char>), ServeError> {
        Ok((STATUS_OK, json_content_type(), listing_json(entries)))
    }

    fn make_response(&self, entries: Vec<DirEntryState>) -> (r: Result<Response, ServeError>) {
        Ok(self.json_response(&entries))
    }
}

} // verus!
