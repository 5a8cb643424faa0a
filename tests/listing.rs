use staticdir::json::encode_listing;
use staticdir::listing::{collect_entries, file_type_of};
use staticdir::{BadString, DirEntryState, EntryMetadata, FileType, NotADir, RawEntry};

fn entry(name: &str, file_type: FileType) -> DirEntryState {
    DirEntryState {
        file_type,
        file_name: name.to_string(),
        size: 7,
        creation_time: None,
        last_modification_time: 1451939290,
        last_access_time: 1451939309,
    }
}

fn readable(name: &str) -> RawEntry {
    RawEntry {
        file_name: Some(name.to_string()),
        file_type: Some(FileType::File),
        metadata: Some(EntryMetadata {
            size: 1,
            creation_time: Some(5),
            last_modification_time: 6,
            last_access_time: 7,
        }),
    }
}

#[test]
fn empty_listing_is_empty_array() {
    assert_eq!(encode_listing(&Vec::new()), "[]");
}

#[test]
fn listing_has_exact_form() {
    let mut dir = entry("src", FileType::Dir);
    dir.size = 4096;
    dir.creation_time = Some(1451939000);
    let body = encode_listing(&vec![entry(".gitignore", FileType::File), dir]);
    assert_eq!(
        body,
        "[{\"file_type\":\"File\",\"file_name\":\".gitignore\",\"size\":7,\"creation_time\":null,\
         \"last_modification_time\":1451939290,\"last_access_time\":1451939309},\
         {\"file_type\":\"Dir\",\"file_name\":\"src\",\"size\":4096,\"creation_time\":1451939000,\
         \"last_modification_time\":1451939290,\"last_access_time\":1451939309}]"
    );
}

#[test]
fn symlink_and_largest_numbers() {
    let mut e = entry("link", FileType::Symlink);
    e.size = u64::MAX;
    e.last_access_time = 0;
    let body = encode_listing(&vec![e]);
    assert_eq!(
        body,
        "[{\"file_type\":\"Symlink\",\"file_name\":\"link\",\"size\":18446744073709551615,\
         \"creation_time\":null,\"last_modification_time\":1451939290,\"last_access_time\":0}]"
    );
}

#[test]
fn file_names_are_escaped() {
    let body = encode_listing(&vec![entry("a\"b\\c\nd\u{1}\u{7f}é", FileType::File)]);
    assert!(body.contains("\"file_name\":\"a\\\"b\\\\c\\nd\\u0001\\u007fé\""));
}

#[test]
fn unreadable_entries_are_left_out() {
    let mut no_name = readable("x");
    no_name.file_name = None;
    let mut no_type = readable("y");
    no_type.file_type = None;
    let mut no_meta = readable("z");
    no_meta.metadata = None;
    let raws = vec![readable("a"), no_name, no_type, readable("b"), no_meta];
    let entries = collect_entries(&raws);
    assert_eq!(entries.len(), 2);
    assert_eq!(entries[0].file_name, "a");
    assert_eq!(entries[1].file_name, "b");
    assert_eq!(entries[0].creation_time, Some(5));
    assert_eq!(entries[0].size, 1);
}

#[test]
fn readable_entries_are_all_kept() {
    let raws = vec![readable("a"), readable("b"), readable("c")];
    assert_eq!(collect_entries(&raws).len(), 3);
    assert_eq!(collect_entries(&Vec::new()).len(), 0);
}

#[test]
fn file_type_from_tests() {
    assert_eq!(file_type_of(true, false, false), Some(FileType::File));
    assert_eq!(file_type_of(false, true, false), Some(FileType::Dir));
    assert_eq!(file_type_of(false, false, true), Some(FileType::Symlink));
    assert_eq!(file_type_of(false, false, false), None);
}

#[test]
fn error_descriptions() {
    assert_eq!(BadString::new("Could not read file name").description(), "Could not read file name");
    assert_eq!(NotADir.description(), "Requested entry is file");
}
