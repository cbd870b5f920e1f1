use rsdk::cache::{CacheManager, Metadata};
use rsdk::fetch::{
    download_decision, extract_filename_from_disposition, fetch_plan, parse_u64, record_download,
    resolve_file_name, FetchDecision, FetchError, FetchPlan, HttpInfo,
};
use rsdk::path::DirPath;

fn cache_dir() -> DirPath {
    DirPath {
        segments: vec!["".to_string(), "home".to_string(), ".rsdk".to_string(), "cache".to_string()],
    }
}

fn response(status: u16) -> HttpInfo {
    HttpInfo {
        status,
        etag: None,
        last_modified: None,
        content_disposition: None,
        content_length: None,
    }
}

#[test]
fn parse_u64_exact_values() {
    assert_eq!(parse_u64("0"), Some(0));
    assert_eq!(parse_u64("12345"), Some(12345));
    assert_eq!(parse_u64("18446744073709551615"), Some(u64::MAX));
    assert_eq!(parse_u64("18446744073709551616"), None);
    assert_eq!(parse_u64(""), None);
    assert_eq!(parse_u64("12a"), None);
    assert_eq!(parse_u64("-3"), None);
}

#[test]
fn filename_comes_from_the_disposition_header() {
    assert_eq!(
        extract_filename_from_disposition("attachment; filename=\"jdk-21.zip\""),
        Some("jdk-21.zip".to_string())
    );
    assert_eq!(
        extract_filename_from_disposition("filename=plain.tar.gz; something=else"),
        Some("plain.tar.gz".to_string())
    );
    assert_eq!(extract_filename_from_disposition("attachment; size=12"), None);
    assert_eq!(resolve_file_name(&None), "file".to_string());
    assert_eq!(
        resolve_file_name(&Some("attachment; filename=x.zip".to_string())),
        "x.zip".to_string()
    );
}

#[test]
fn not_modified_uses_the_cache() {
    let decision = download_decision(&response(304)).expect("304 is a usable answer");
    assert!(matches!(decision, FetchDecision::UseCache));
}

#[test]
fn success_without_length_is_an_error() {
    let result = download_decision(&response(200));
    assert!(matches!(result, Err(FetchError::MissingLength)));
}

#[test]
fn failure_status_is_a_transport_error() {
    let result = download_decision(&response(500));
    assert!(matches!(result, Err(FetchError::Transport)));
}

#[test]
fn success_with_length_downloads() {
    let mut resp = response(200);
    resp.content_length = Some("1024".to_string());
    resp.content_disposition = Some("attachment; filename=\"jdk.zip\"".to_string());
    match download_decision(&resp).expect("a success answer decides") {
        FetchDecision::Download { file_name, total_size } => {
            assert_eq!(file_name, "jdk.zip".to_string());
            assert_eq!(total_size, 1024);
        }
        FetchDecision::UseCache => panic!("a fresh 200 answer must download"),
    }
}

/// Two consecutive fetches against an unchanged resource download once.
#[test]
fn second_fetch_is_served_by_revalidation() {
    let manager = CacheManager::new(&cache_dir());
    // first sight of the URL: no files, no metadata
    let mut entry = manager.get_cache_entry("https://example.invalid/a.zip", false, false, None);
    assert!(!entry.is_valid());
    assert!(matches!(fetch_plan(&entry), FetchPlan::Unconditional));

    let mut resp1 = response(200);
    resp1.etag = Some("\"v1\"".to_string());
    resp1.content_length = Some("3".to_string());
    let mut downloads = 0;
    match download_decision(&resp1).unwrap() {
        FetchDecision::Download { file_name, .. } => {
            downloads += 1;
            record_download(&mut entry, &resp1, &file_name);
        }
        FetchDecision::UseCache => {}
    }
    assert!(entry.is_valid());
    assert_eq!(entry.metadata.etag, Some("\"v1\"".to_string()));

    // second fetch: the record is valid and carries a validator
    match fetch_plan(&entry) {
        FetchPlan::Conditional { etag, .. } => assert_eq!(etag, Some("\"v1\"".to_string())),
        FetchPlan::Unconditional => panic!("a valid record with validators must revalidate"),
    }
    // the unchanged resource answers 304
    match download_decision(&response(304)).unwrap() {
        FetchDecision::Download { .. } => downloads += 1,
        FetchDecision::UseCache => {}
    }
    assert_eq!(downloads, 1);
}

/// A cached blob whose metadata file was deleted externally is treated as
/// invalid: the next fetch re-downloads rather than erroring.
#[test]
fn missing_metadata_forces_a_redownload() {
    let manager = CacheManager::new(&cache_dir());
    let entry = manager.get_cache_entry("https://example.invalid/a.zip", true, false, None);
    assert!(!entry.is_valid());
    assert!(matches!(fetch_plan(&entry), FetchPlan::Unconditional));
    assert_eq!(entry.metadata.file_name, String::new());
}

#[test]
fn corrupt_metadata_degrades_to_the_empty_record() {
    let manager = CacheManager::new(&cache_dir());
    // the caller could not parse the metadata file: it hands in None
    let entry = manager.get_cache_entry("u", true, true, None);
    assert!(entry.metadata.etag.is_none());
    assert!(entry.metadata.last_modified.is_none());
    // a record without validators cannot revalidate
    assert!(matches!(fetch_plan(&entry), FetchPlan::Unconditional));
    // with stored validators it does
    let stored = Metadata {
        file_name: "f".to_string(),
        etag: None,
        last_modified: Some("Mon, 01 Jan 2024 00:00:00 GMT".to_string()),
    };
    let entry = manager.get_cache_entry("u", true, true, Some(stored));
    assert!(matches!(fetch_plan(&entry), FetchPlan::Conditional { .. }));
}
