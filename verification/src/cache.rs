//! The content cache: one record per URL, held as a blob file plus a
//! metadata file under the cache directory, keyed by a hash of the URL.
//! A record is valid only while both files exist; missing or unreadable
//! metadata degrades to an empty record and forces a full download.

use vstd::prelude::*;
use vstd::string::*;
use crate::path::DirPath;

verus! {

/// The hexadecimal digest that names a URL's cache files.
pub uninterp spec fn md5_hex_of(s: Seq<char>) -> Seq<char>;

/// Relies on `md5::compute` and the `LowerHex` rendering of its `Digest`:
/// the digest is a function of the input bytes alone, and the rendering
/// writes two lower-case hex digits for each of its sixteen bytes.
#[verifier::external_body]
fn md5_hex(url: &str) -> (r: String)
    ensures
        r@ == md5_hex_of(url@),
        r@.len() == 32,
{
    format!("{:x}", md5::compute(url))
}

/// Revalidation metadata for one cached URL.
pub struct Metadata {
    pub file_name: String,
    pub etag: Option<String>,
    pub last_modified: Option<String>,
}

impl Metadata {
    /// The empty record: no resolved file name, no validators.
    pub fn empty() -> (r: Metadata)
        ensures
            r.file_name@ == Seq::<char>::empty(),
            r.etag is None,
            r.last_modified is None,
    {
        Metadata { file_name: String::new(), etag: None, last_modified: None }
    }

    /// A structural copy.
    pub fn duplicate(&self) -> (r: Metadata)
        ensures
            r.file_name == self.file_name,
            r.etag == self.etag,
            r.last_modified == self.last_modified,
    {
        Metadata {
            file_name: self.file_name.clone(),
            etag: clone_opt(&self.etag),
            last_modified: clone_opt(&self.last_modified),
        }
    }

    /// Whether any validator is known, so that a conditional request can be
    /// made at all.
    pub fn has_validators(&self) -> (r: bool)
        ensures
            r == (self.etag is Some || self.last_modified is Some),
    {
        self.etag.is_some() || self.last_modified.is_some()
    }
}

/// A copy of an optional string.
pub fn clone_opt(o: &Option<String>) -> (r: Option<String>)
    ensures
        r == o,
{
    match o {
        Some(s) => Some(s.clone()),
        None => None,
    }
}

/// One URL's cache record: where its blob and metadata files live, whether
/// they exist, and the metadata read from disk.
pub struct CacheEntry {
    pub cache_dir: DirPath,
    pub url_hash: String,
    pub metadata: Metadata,
    pub blob_exists: bool,
    pub meta_exists: bool,
}

impl CacheEntry {
    /// `<cache>/<hash>`, the blob file.
    pub fn file_path(&self) -> (r: DirPath)
        ensures
            r@ == self.cache_dir@.push(self.url_hash@),
    {
        self.cache_dir.child_string(&self.url_hash)
    }

    /// `<cache>/<hash>.meta`, the metadata file.
    pub fn metadata_path(&self) -> (r: DirPath)
        ensures
            r@ == self.cache_dir@.push(self.url_hash@ + ".meta"@),
    {
        let mut name = self.url_hash.clone();
        name.append(".meta");
        self.cache_dir.child_string(&name)
    }

    /// A record is valid only while both of its files exist.
    pub fn is_valid(&self) -> (r: bool)
        ensures
            r == (self.blob_exists && self.meta_exists),
    {
        self.blob_exists && self.meta_exists
    }
}

/// Locates cache records under one cache directory.
pub struct CacheManager {
    pub cache_dir: DirPath,
}

impl CacheManager {
    /// A manager over the given cache directory.
    pub fn new(cache_dir: &DirPath) -> (r: CacheManager)
        ensures
            r.cache_dir@ == cache_dir@,
    {
        CacheManager { cache_dir: cache_dir.duplicate() }
    }

    /// Resolves the record for a URL.  The caller reports which of the two
    /// files exist and the metadata it could read; absent or unreadable
    /// metadata is handed in as `None` and degrades to the empty record,
    /// never to an error.
    pub fn get_cache_entry(
        &self,
        url: &str,
        blob_exists: bool,
        meta_exists: bool,
        stored_metadata: Option<Metadata>,
    ) -> (r: CacheEntry)
        ensures
            r.cache_dir@ == self.cache_dir@,
            r.url_hash@ == md5_hex_of(url@),
            r.blob_exists == blob_exists,
            r.meta_exists == meta_exists,
            r.metadata == match stored_metadata {
                Some(m) => m,
                None => r.metadata,
            },
            stored_metadata is None ==> r.metadata.file_name@ == Seq::<char>::empty()
                && r.metadata.etag is None && r.metadata.last_modified is None,
    {
        let metadata = match stored_metadata {
            Some(m) => m,
            None => Metadata::empty(),
        };
        CacheEntry {
            cache_dir: self.cache_dir.duplicate(),
            url_hash: md5_hex(url),
            metadata,
            blob_exists,
            meta_exists,
        }
    }
}

} // verus!
