use rsdk::cache::{CacheManager, Metadata};
use rsdk::path::DirPath;

fn cache_dir() -> DirPath {
    DirPath { segments: vec!["".to_string(), "c".to_string()] }
}

/// The cache key is the md5 hex digest of the URL; a known digest pins the
/// hashing down.
#[test]
fn cache_key_is_the_md5_hex_of_the_url() {
    let manager = CacheManager::new(&cache_dir());
    let entry = manager.get_cache_entry("hello", false, false, None);
    assert_eq!(entry.url_hash, "5d41402abc4b2a76b9719d911017c592".to_string());
    let entry = manager.get_cache_entry("", false, false, None);
    assert_eq!(entry.url_hash, "d41d8cd98f00b204e9800998ecf8427e".to_string());
}

#[test]
fn record_paths_sit_under_the_cache_directory() {
    let manager = CacheManager::new(&cache_dir());
    let entry = manager.get_cache_entry("hello", false, false, None);
    assert_eq!(
        entry.file_path().render(),
        "/c/5d41402abc4b2a76b9719d911017c592".to_string()
    );
    assert_eq!(
        entry.metadata_path().render(),
        "/c/5d41402abc4b2a76b9719d911017c592.meta".to_string()
    );
}

#[test]
fn a_record_is_valid_only_with_both_files() {
    let manager = CacheManager::new(&cache_dir());
    assert!(!manager.get_cache_entry("u", false, false, None).is_valid());
    assert!(!manager.get_cache_entry("u", true, false, None).is_valid());
    assert!(!manager.get_cache_entry("u", false, true, None).is_valid());
    assert!(manager.get_cache_entry("u", true, true, None).is_valid());
}

#[test]
fn stored_metadata_is_carried_through() {
    let manager = CacheManager::new(&cache_dir());
    let stored = Metadata {
        file_name: "jdk.zip".to_string(),
        etag: Some("\"abc\"".to_string()),
        last_modified: None,
    };
    let entry = manager.get_cache_entry("u", true, true, Some(stored));
    assert_eq!(entry.metadata.file_name, "jdk.zip".to_string());
    assert_eq!(entry.metadata.etag, Some("\"abc\"".to_string()));
}
