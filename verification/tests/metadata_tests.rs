use jellyfish::metadata_api::file_info;
use jellyfish::metadata_api::list_directory;
use jellyfish::resource::DirEntryInfo;
use jellyfish::resource::ResourceDescriptor;
use jellyfish::resource::Timestamp;

fn ts(secs: i64) -> Timestamp {
    Timestamp { secs, nanos: 0 }
}

#[test]
fn info_on_directory_is_bad_request() {
    let lookup = Ok(ResourceDescriptor::Directory { entries: Vec::new() });
    let r = file_info("somedir", &lookup, &Ok(Vec::new()));
    assert_eq!(r.status, 400);
    assert_eq!(
        r.body,
        "{\"error\":\"The '?info' parameter can only be used on files.\",\"success\":false}"
    );
}

#[test]
fn info_on_missing_is_not_found() {
    let lookup = Ok(ResourceDescriptor::Missing);
    let r = file_info("nope", &lookup, &Ok(Vec::new()));
    assert_eq!(r.status, 404);
    assert_eq!(r.body, "{\"error\":\"Resource not found.\",\"success\":false}");
}

#[test]
fn info_on_read_failure_is_internal_error() {
    let lookup = Ok(ResourceDescriptor::File { size: 3, modified: ts(0) });
    let r = file_info("x", &lookup, &Err(String::from("permission denied")));
    assert_eq!(r.status, 500);
    assert_eq!(
        r.body,
        "{\"error\":\"Failed to read file: permission denied\",\"success\":false}"
    );
}

#[test]
fn info_on_metadata_failure_is_internal_error() {
    let lookup: Result<ResourceDescriptor, String> = Err(String::from("loop detected"));
    let r = file_info("x", &lookup, &Ok(Vec::new()));
    assert_eq!(r.status, 500);
    assert_eq!(
        r.body,
        "{\"error\":\"Failed to read file metadata: loop detected\",\"success\":false}"
    );
}

#[test]
fn info_success_reports_size_time_and_hash() {
    let lookup = Ok(ResourceDescriptor::File { size: 1024, modified: ts(1_700_000_000) });
    let r = file_info("docs/report.pdf", &lookup, &Ok(Vec::new()));
    assert_eq!(r.status, 200);
    assert_eq!(
        r.body,
        "{\"data\":{\"hash_xxh64\":\"ef46db3751d8e999\",\
         \"modified_time\":\"2023-11-14T22:13:20+00:00\",\
         \"path\":\"docs/report.pdf\",\"size_bytes\":1024},\"success\":true}"
    );
}

#[test]
fn info_hash_is_sixteen_lowercase_hex_digits() {
    let lookup = Ok(ResourceDescriptor::File { size: 5, modified: ts(0) });
    let r = file_info("f", &lookup, &Ok(b"hello".to_vec()));
    assert_eq!(r.status, 200);
    let marker = "\"hash_xxh64\":\"";
    let at = r.body.find(marker).unwrap() + marker.len();
    let hash = &r.body[at..at + 16];
    assert_eq!(hash.len(), 16);
    assert!(hash.chars().all(|c| c.is_ascii_hexdigit() && !c.is_ascii_uppercase()));
    assert_eq!(r.body.as_bytes()[at + 16], b'"');
}

#[test]
fn info_hash_is_deterministic_on_unmodified_content() {
    let lookup = Ok(ResourceDescriptor::File { size: 11, modified: ts(1_000_000) });
    let first = file_info("a/b", &lookup, &Ok(b"same bytes!".to_vec()));
    let second = file_info("a/b", &lookup, &Ok(b"same bytes!".to_vec()));
    assert_eq!(first.status, 200);
    assert_eq!(first.body, second.body);
}

#[test]
fn info_hash_changes_with_content() {
    let lookup = Ok(ResourceDescriptor::File { size: 1, modified: ts(0) });
    let first = file_info("f", &lookup, &Ok(b"a".to_vec()));
    let second = file_info("f", &lookup, &Ok(b"b".to_vec()));
    assert_ne!(first.body, second.body);
}

#[test]
fn info_renders_the_largest_size_exactly() {
    let lookup = Ok(ResourceDescriptor::File { size: u64::MAX, modified: ts(0) });
    let r = file_info("big", &lookup, &Ok(Vec::new()));
    assert_eq!(r.status, 200);
    assert!(r.body.contains("\"size_bytes\":18446744073709551615}"));
}

#[test]
fn error_details_are_json_escaped() {
    let lookup = Ok(ResourceDescriptor::File { size: 1, modified: ts(0) });
    let r = file_info("x", &lookup, &Err(String::from("tab\there \"quoted\"")));
    assert_eq!(r.status, 500);
    assert!(r
        .body
        .contains("Failed to read file: tab\\u0009here \\\"quoted\\\""));
}

#[test]
fn list_on_file_is_bad_request() {
    let lookup = Ok(ResourceDescriptor::File { size: 1, modified: ts(0) });
    let r = list_directory(&lookup);
    assert_eq!(r.status, 400);
    assert_eq!(
        r.body,
        "{\"error\":\"The '?list' parameter can only be used on directories.\",\"success\":false}"
    );
}

#[test]
fn list_on_missing_is_not_found() {
    let r = list_directory(&Ok(ResourceDescriptor::Missing));
    assert_eq!(r.status, 404);
    assert_eq!(r.body, "{\"error\":\"Resource not found.\",\"success\":false}");
}

#[test]
fn list_on_io_failure_is_internal_error() {
    let r = list_directory(&Err(String::from("whoops")));
    assert_eq!(r.status, 500);
    assert_eq!(
        r.body,
        "{\"error\":\"Failed to read directory: whoops\",\"success\":false}"
    );
}

#[test]
fn list_renders_entries_in_given_order() {
    let entries = vec![
        DirEntryInfo { name: String::from("a.txt"), is_dir: false, modified: ts(0) },
        DirEntryInfo { name: String::from("sub"), is_dir: true, modified: ts(0) },
    ];
    let r = list_directory(&Ok(ResourceDescriptor::Directory { entries }));
    assert_eq!(r.status, 200);
    assert_eq!(
        r.body,
        "{\"data\":[\
         {\"is_dir\":false,\"modified_time\":\"1970-01-01T00:00:00+00:00\",\"name\":\"a.txt\"},\
         {\"is_dir\":true,\"modified_time\":\"1970-01-01T00:00:00+00:00\",\"name\":\"sub\"}\
         ],\"success\":true}"
    );
}

#[test]
fn list_of_empty_directory_is_empty_array() {
    let r = list_directory(&Ok(ResourceDescriptor::Directory { entries: Vec::new() }));
    assert_eq!(r.status, 200);
    assert_eq!(r.body, "{\"data\":[],\"success\":true}");
}

#[test]
fn entry_names_are_json_escaped() {
    let entries = vec![DirEntryInfo {
        name: String::from("we\"ird\\name\n"),
        is_dir: false,
        modified: ts(0),
    }];
    let r = list_directory(&Ok(ResourceDescriptor::Directory { entries }));
    assert!(r.body.contains("\"name\":\"we\\\"ird\\\\name\\u000a\""));
}
