use rustc_serialize::json::Json;
use staticdir::{
    AsJson, DirEntryState, DirProbe, EntryMetadata, FileType, IoKind, RawEntry, Response,
    ResponseStrategy, ServeError, StaticDir,
};

fn metadata(size: u64) -> EntryMetadata {
    EntryMetadata {
        size,
        creation_time: None,
        last_modification_time: 1451939290,
        last_access_time: 1451939309,
    }
}

fn raw(name: &str, file_type: FileType, size: u64) -> RawEntry {
    RawEntry {
        file_name: Some(name.to_string()),
        file_type: Some(file_type),
        metadata: Some(metadata(size)),
    }
}

fn segments(parts: &[&str]) -> Vec<String> {
    parts.iter().map(|p| p.to_string()).collect()
}

fn entries_of(body: &str) -> Vec<Json> {
    Json::from_str(body).unwrap().as_array().unwrap().clone()
}

fn field<'a>(entry: &'a Json, key: &str) -> &'a Json {
    entry.find(key).unwrap()
}

#[test]
fn response_should_be_200() {
    let static_dir = StaticDir::new("example", AsJson);
    let path = static_dir.extend_req_path(&segments(&[""])).unwrap();
    assert_eq!(path, vec!["example".to_string(), "".to_string()]);
    let probe = DirProbe::Dir(vec![raw("file1.html", FileType::File, 13)]);
    let res = static_dir.provide_dir(&probe).unwrap();
    assert_eq!(res.status, 200);
}

#[test]
fn response_should_be_json() {
    let static_dir = StaticDir::new("example", AsJson);
    let probe = DirProbe::Dir(vec![raw("file1.html", FileType::File, 13)]);
    let res = static_dir.provide_dir(&probe).unwrap();
    assert_eq!(res.content_type, "application/json; charset=utf-8");
}

#[test]
fn response_should_contain_file_entry() {
    let static_dir = StaticDir::new("example", AsJson);
    let probe = DirProbe::Dir(vec![raw("file1.html", FileType::File, 13)]);
    let res = static_dir.provide_dir(&probe).unwrap();
    let entries = entries_of(&res.body);
    let entry = &entries[0];
    assert_eq!(field(entry, "file_name").as_string().unwrap(), "file1.html");
    assert_eq!(field(entry, "file_type").as_string().unwrap(), "File");
    assert!(field(entry, "size").as_u64().unwrap() > 0);
    assert!(field(entry, "last_modification_time").as_u64().unwrap() > 0);
    assert!(field(entry, "last_access_time").as_u64().unwrap() > 0);
}

#[test]
fn static_should_work_with_mount() {
    // Mounted under /mnt/, a request for /mnt reaches the handler with no segment left.
    let static_dir = StaticDir::new("example", AsJson);
    let path = static_dir.extend_req_path(&Vec::new()).unwrap();
    assert_eq!(path, vec!["example".to_string()]);
    let probe = DirProbe::Dir(vec![raw("file1.html", FileType::File, 13)]);
    assert_eq!(static_dir.provide_dir(&probe).unwrap().status, 200);
}

struct AsHtml;

impl ResponseStrategy for AsHtml {
    fn make_response(&self, entries: Vec<DirEntryState>) -> Result<Response, ServeError> {
        let mut html = String::new();
        for entry in entries {
            html = format!("{}<li>{}</li>", html, entry.file_name);
        }
        Ok(Response {
            status: 200,
            content_type: "text/html; charset=utf-8".to_string(),
            body: format!("<ul>{}</ul>", html),
        })
    }
}

#[test]
fn should_support_custom_strategies() {
    let static_dir = StaticDir::new("example", AsHtml);
    let probe = DirProbe::Dir(vec![
        raw("file2.html", FileType::File, 13),
        raw("file1.html", FileType::File, 13),
    ]);
    let res = static_dir.provide_dir(&probe).unwrap();
    assert_eq!(res.body, "<ul><li>file2.html</li><li>file1.html</li></ul>");
}

#[test]
fn should_work_with_trailing_slash() {
    let static_dir = StaticDir::new("example", AsJson);
    let path = static_dir.extend_req_path(&segments(&["dir", ""])).unwrap();
    assert_eq!(path, vec!["example".to_string(), "dir".to_string(), "".to_string()]);
    let probe = DirProbe::Dir(vec![raw("file1.html", FileType::File, 13)]);
    assert_eq!(static_dir.provide_dir(&probe).unwrap().status, 200);
}

#[test]
fn should_work_without_trailing_slash() {
    let static_dir = StaticDir::new("example", AsJson);
    let path = static_dir.extend_req_path(&segments(&["dir"])).unwrap();
    assert_eq!(path, vec!["example".to_string(), "dir".to_string()]);
    let probe = DirProbe::Dir(vec![raw("file1.html", FileType::File, 13)]);
    assert_eq!(static_dir.provide_dir(&probe).unwrap().status, 200);
}

#[test]
fn should_work_with_static_file() {
    // The file server answers /dir/file1.html itself; /dir/ it fails with 404,
    // which the handler replaces by the listing of dir.
    let static_dir = StaticDir::new("example", AsJson);
    assert!(!static_dir.intercepts_response(Some(200)));
    assert!(static_dir.intercepts_failure(Some(404)));
    let probe = DirProbe::Dir(vec![raw("file1.html", FileType::File, 12)]);
    let res = static_dir.provide_dir(&probe).unwrap();
    assert_eq!(res.status, 200);
    assert_eq!(res.content_type, "application/json; charset=utf-8");
}

#[test]
fn should_work_with_funky_chars() {
    let static_dir = StaticDir::new("example", AsJson);
    let path = static_dir.extend_req_path(&segments(&["dir%20with%20spaces", ""])).unwrap();
    assert_eq!(path[1], "dir with spaces");
    let probe = DirProbe::Dir(vec![raw("some file.html", FileType::File, 13)]);
    let res = static_dir.provide_dir(&probe).unwrap();
    assert_eq!(res.status, 200);
    let entries = entries_of(&res.body);
    assert_eq!(field(&entries[0], "file_name").as_string().unwrap(), "some file.html");
}

#[test]
fn regular_file_gives_bad_request() {
    let static_dir = StaticDir::new("example", AsJson);
    let err = static_dir.provide_dir(&DirProbe::NotADir).unwrap_err();
    assert!(matches!(err, ServeError::NotADir(_)));
    assert_eq!(err.status(), 400);
}

#[test]
fn missing_path_gives_not_found() {
    let static_dir = StaticDir::new("example", AsJson);
    let err = static_dir.provide_dir(&DirProbe::Failed(IoKind::NotFound)).unwrap_err();
    assert_eq!(err.status(), 404);
}

#[test]
fn refused_path_gives_forbidden() {
    let static_dir = StaticDir::new("example", AsJson);
    let err = static_dir.provide_dir(&DirProbe::Failed(IoKind::PermissionDenied)).unwrap_err();
    assert_eq!(err.status(), 403);
    let err = static_dir.provide_dir(&DirProbe::Failed(IoKind::Other)).unwrap_err();
    assert_eq!(err.status(), 500);
}

#[test]
fn multibyte_segment_is_decoded() {
    let static_dir = StaticDir::new("tests/mount", AsJson);
    let path = static_dir.extend_req_path(&segments(&["%D0%BF%D0%BE"])).unwrap();
    assert_eq!(path[1], "по");
    let path = static_dir
        .extend_req_path(&segments(&["%D0%BF%D0%BE-%D1%80%D1%83%D1%81%D1%81%D0%BA%D0%B8"]))
        .unwrap();
    assert_eq!(path[1], "по-русски");
}

#[test]
fn undecodable_segment_is_rejected() {
    let static_dir = StaticDir::new("example", AsJson);
    let err = static_dir.extend_req_path(&segments(&["ok", "%FF%FE"])).unwrap_err();
    assert!(matches!(err, ServeError::Decoding(_)));
    assert_eq!(err.status(), 500);
}

#[test]
fn percent_without_digits_is_kept() {
    let static_dir = StaticDir::new("example", AsJson);
    let path = static_dir.extend_req_path(&segments(&["100%", "a%2", "%zz", "%41b"])).unwrap();
    assert_eq!(path, segments(&["example", "100%", "a%2", "%zz", "Ab"]));
}

#[test]
fn root_with_file_and_nested_dir() {
    let static_dir = StaticDir::new("tests/mount", AsJson);
    let probe = DirProbe::Dir(vec![
        raw("1.txt", FileType::File, 11),
        raw("nested", FileType::Dir, 4096),
    ]);
    let res = static_dir.provide_dir(&probe).unwrap();
    let entries = entries_of(&res.body);
    assert_eq!(entries.len(), 2);
    assert_eq!(field(&entries[0], "file_name").as_string().unwrap(), "1.txt");
    assert_eq!(field(&entries[0], "file_type").as_string().unwrap(), "File");
    assert_eq!(field(&entries[1], "file_name").as_string().unwrap(), "nested");
    assert_eq!(field(&entries[1], "file_type").as_string().unwrap(), "Dir");

    let path = static_dir.extend_req_path(&segments(&["nested"])).unwrap();
    assert_eq!(path, segments(&["tests/mount", "nested"]));
    let probe = DirProbe::Dir(vec![raw("2.txt", FileType::File, 11)]);
    let entries = entries_of(&static_dir.provide_dir(&probe).unwrap().body);
    assert_eq!(entries.len(), 1);
    assert_eq!(field(&entries[0], "file_name").as_string().unwrap(), "2.txt");
}

#[test]
fn redirect_of_directory_becomes_listing() {
    let static_dir = StaticDir::new("tests/mount", AsJson);
    assert!(static_dir.intercepts_response(Some(301)));
    let path = static_dir.extend_req_path(&segments(&["docs"])).unwrap();
    assert_eq!(path, segments(&["tests/mount", "docs"]));
    let probe = DirProbe::Dir(vec![raw("index.md", FileType::File, 5)]);
    let res = static_dir.provide_dir(&probe).unwrap();
    assert_eq!(res.status, 200);
    assert_eq!(res.content_type, "application/json; charset=utf-8");
    assert_eq!(entries_of(&res.body).len(), 1);
}

#[test]
fn other_outcomes_pass_through() {
    let static_dir = StaticDir::new("tests/mount", AsJson);
    assert!(!static_dir.intercepts_response(Some(200)));
    assert!(!static_dir.intercepts_response(Some(404)));
    assert!(!static_dir.intercepts_response(None));
    assert!(!static_dir.intercepts_failure(Some(301)));
    assert!(!static_dir.intercepts_failure(Some(500)));
    assert!(!static_dir.intercepts_failure(None));
}

#[test]
fn disjoint_directories_list_their_own_entries() {
    let static_dir = StaticDir::new("tests/mount", AsJson);
    let a = DirProbe::Dir(vec![raw("a.txt", FileType::File, 1)]);
    let b = DirProbe::Dir(vec![raw("b.txt", FileType::File, 2), raw("c", FileType::Dir, 4096)]);
    let res_a = static_dir.provide_dir(&a).unwrap();
    let res_b = static_dir.provide_dir(&b).unwrap();
    let ea = entries_of(&res_a.body);
    let eb = entries_of(&res_b.body);
    assert_eq!(ea.len(), 1);
    assert_eq!(field(&ea[0], "file_name").as_string().unwrap(), "a.txt");
    assert_eq!(eb.len(), 2);
    assert_eq!(field(&eb[0], "file_name").as_string().unwrap(), "b.txt");
    assert_eq!(field(&eb[1], "file_name").as_string().unwrap(), "c");
}

struct Refusing;

impl ResponseStrategy for Refusing {
    fn make_response(&self, _entries: Vec<DirEntryState>) -> Result<Response, ServeError> {
        Err(ServeError::Serialization)
    }
}

#[test]
fn strategy_failure_is_handed_on() {
    let static_dir = StaticDir::new("example", Refusing);
    let probe = DirProbe::Dir(vec![raw("file1.html", FileType::File, 13)]);
    let err = static_dir.provide_dir(&probe).unwrap_err();
    assert!(matches!(err, ServeError::Serialization));
    assert_eq!(err.status(), 500);
    let err = static_dir.provide_dir(&DirProbe::NotADir).unwrap_err();
    assert_eq!(err.status(), 400);
}

#[test]
fn empty_directory_gives_empty_array() {
    let static_dir = StaticDir::new("tests/mount", AsJson);
    let path = static_dir.extend_req_path(&segments(&["has%20space"])).unwrap();
    assert_eq!(path, segments(&["tests/mount", "has space"]));
    let res = static_dir.provide_dir(&DirProbe::Dir(Vec::new())).unwrap();
    assert_eq!(res.status, 200);
    assert_eq!(res.body, "[]");
}

#[test]
fn unreadable_entry_keeps_listing_ok() {
    let static_dir = StaticDir::new("tests/mount", AsJson);
    let broken = RawEntry { file_name: None, file_type: Some(FileType::File), metadata: None };
    let probe = DirProbe::Dir(vec![broken, raw("1.txt", FileType::File, 11)]);
    let res = static_dir.provide_dir(&probe).unwrap();
    assert_eq!(res.status, 200);
    let entries = entries_of(&res.body);
    assert_eq!(entries.len(), 1);
    assert_eq!(field(&entries[0], "file_name").as_string().unwrap(), "1.txt");
}
