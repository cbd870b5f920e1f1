//! The revalidating fetch protocol.  Given a cache record and the header
//! values of an HTTP response — both plain data — the functions here decide
//! whether to send an unconditional or a conditional request, whether the
//! response means "use the cached blob" or "download in full", what file
//! name the download carries, and what metadata to record afterwards.  The
//! unverified shell performs the requests and the byte transfer.

use vstd::prelude::*;
use vstd::string::*;
use crate::cache::{CacheEntry, Metadata, clone_opt};
use crate::text;
use crate::text::{spec_split, spec_trim, spec_trim_matches};

verus! {

/// The header values of a response that the protocol reads.
pub struct HttpInfo {
    pub status: u16,
    pub etag: Option<String>,
    pub last_modified: Option<String>,
    pub content_disposition: Option<String>,
    pub content_length: Option<String>,
}

/// How to ask for a URL.
pub enum FetchPlan {
    Unconditional,
    Conditional { etag: Option<String>, last_modified: Option<String> },
}

/// What to do with a response.
pub enum FetchDecision {
    UseCache,
    Download { file_name: String, total_size: u64 },
}

/// Why a fetch fails.
#[derive(Debug)]
pub enum FetchError {
    Transport,
    MissingLength,
}

/// A full download is needed: the record is missing a file, or no validator
/// is known for a conditional request.
pub open spec fn spec_needs_full_fetch(e: CacheEntry) -> bool {
    !(e.blob_exists && e.meta_exists) || (e.metadata.etag is None
        && e.metadata.last_modified is None)
}

/// A success status in the `2xx` range.
pub open spec fn spec_success(status: u16) -> bool {
    200 <= status < 300
}

/// The response carries a content length that parses as a `u64`.
pub open spec fn spec_has_length(resp: HttpInfo) -> bool {
    match resp.content_length {
        Some(l) => spec_parse_u64(l@) is Some,
        None => false,
    }
}

/// The response tells the fetcher to download in full.
pub open spec fn spec_decision_downloads(resp: HttpInfo) -> bool {
    resp.status != 304 && spec_success(resp.status)
}

/// The response tells the fetcher the cached blob is still fresh.
pub open spec fn spec_decision_uses_cache(resp: HttpInfo) -> bool {
    resp.status == 304
}

/// Step one of the protocol: with no usable record an unconditional request
/// is sent; otherwise a conditional request carrying the stored validators.
pub fn fetch_plan(entry: &CacheEntry) -> (r: FetchPlan)
    ensures
        spec_needs_full_fetch(*entry) ==> r is Unconditional,
        !spec_needs_full_fetch(*entry) ==> (r matches FetchPlan::Conditional {
            etag,
            last_modified,
        } && etag == entry.metadata.etag && last_modified == entry.metadata.last_modified),
{
    if !entry.is_valid() || !entry.metadata.has_validators() {
        FetchPlan::Unconditional
    } else {
        FetchPlan::Conditional {
            etag: clone_opt(&entry.metadata.etag),
            last_modified: clone_opt(&entry.metadata.last_modified),
        }
    }
}

/// Decimal digit.
pub open spec fn is_digit(c: char) -> bool {
    48 <= c as u32 <= 57
}

pub open spec fn digit_val(c: char) -> int {
    c as u32 - 48
}

/// The value of a digit sequence read in base ten.
pub open spec fn spec_dec_val(s: Seq<char>) -> int
    decreases s.len(),
{
    if s.len() == 0 {
        0
    } else {
        spec_dec_val(s.drop_last()) * 10 + digit_val(s.last())
    }
}

pub open spec fn spec_all_digits(s: Seq<char>) -> bool {
    forall|k: int| 0 <= k < s.len() ==> is_digit(#[trigger] s[k])
}

/// What a non-empty, all-digit sequence parses to, when its value fits.
pub open spec fn spec_parse_u64(s: Seq<char>) -> Option<u64> {
    if s.len() > 0 && spec_all_digits(s) && spec_dec_val(s) <= u64::MAX {
        Some(spec_dec_val(s) as u64)
    } else {
        None
    }
}

proof fn lemma_dec_val_nonneg(s: Seq<char>)
    requires
        spec_all_digits(s),
    ensures
        spec_dec_val(s) >= 0,
    decreases s.len(),
{
    if s.len() > 0 {
        assert(spec_all_digits(s.drop_last())) by {
            assert(forall|k: int| 0 <= k < s.len() - 1 ==> is_digit(#[trigger] s.drop_last()[k])
                ==> true);
        }
        lemma_dec_val_nonneg(s.drop_last());
    }
}

/// A longer digit prefix never has a smaller value.
proof fn lemma_dec_val_prefix(s: Seq<char>, i: int)
    requires
        spec_all_digits(s),
        0 <= i <= s.len(),
    ensures
        spec_dec_val(s) >= spec_dec_val(s.take(i)),
    decreases s.len() - i,
{
    if i < s.len() {
        lemma_dec_val_prefix(s, i + 1);
        let t = s.take(i + 1);
        assert(t.drop_last() =~= s.take(i));
        assert(spec_all_digits(s.take(i)));
        lemma_dec_val_nonneg(s.take(i));
        assert(spec_dec_val(t) == spec_dec_val(s.take(i)) * 10 + digit_val(t.last()));
        assert(spec_dec_val(s.take(i)) * 10 >= spec_dec_val(s.take(i))) by (nonlinear_arith)
            requires
                spec_dec_val(s.take(i)) >= 0,
        ;
        assert(digit_val(t.last()) >= 0);
    } else {
        assert(s.take(i) =~= s);
    }
}

/// Parses a decimal `u64`: some value exactly when the text is non-empty,
/// all digits, and within range.
pub fn parse_u64(s: &str) -> (r: Option<u64>)
    ensures
        r == spec_parse_u64(s@),
{
    let n = s.unicode_len();
    if n == 0 {
        return None;
    }
    let mut val: u64 = 0;
    let mut i: usize = 0;
    while i < n
        invariant
            n == s@.len(),
            i <= n,
            spec_all_digits(s@.take(i as int)),
            val == spec_dec_val(s@.take(i as int)),
        decreases n - i,
    {
        let c = s.get_char(i);
        let u: u32 = c as u32;
        if u < 48 || u > 57 {
            proof {
                assert(!is_digit(s@[i as int]));
            }
            return None;
        }
        let d: u64 = (u - 48) as u64;
        proof {
            assert(s@.take(i + 1).drop_last() =~= s@.take(i as int));
            assert(s@.take(i + 1).last() == s@[i as int]);
            assert(spec_all_digits(s@.take(i + 1)));
        }
        let next = match val.checked_mul(10) {
            Some(x) => x.checked_add(d),
            None => None,
        };
        match next {
            Some(x) => {
                val = x;
            },
            None => {
                proof {
                    assert(spec_dec_val(s@.take(i + 1)) > u64::MAX);
                    if spec_all_digits(s@) {
                        lemma_dec_val_prefix(s@, i + 1);
                        assert(s@.take(n as int) =~= s@);
                        assert(spec_dec_val(s@) > u64::MAX);
                    }
                }
                return None;
            },
        }
        i = i + 1;
    }
    proof {
        assert(s@.take(n as int) =~= s@);
    }
    Some(val)
}

/// The first `;`-separated part whose trimmed form starts with `filename=`,
/// with that prefix removed and surrounding quote characters stripped.
pub open spec fn spec_filename_from_parts(parts: Seq<Seq<char>>) -> Option<Seq<char>>
    decreases parts.len(),
{
    if parts.len() == 0 {
        None
    } else if "filename="@.is_prefix_of(spec_trim(parts[0])) {
        Some(spec_trim_matches(spec_trim(parts[0]).skip(9), '"'))
    } else {
        spec_filename_from_parts(parts.skip(1))
    }
}

pub open spec fn spec_extract_filename(cd: Seq<char>) -> Option<Seq<char>> {
    spec_filename_from_parts(spec_split(cd, ';'))
}

/// Reads the resolved file name out of a `Content-Disposition` header value.
pub fn extract_filename_from_disposition(content_disposition: &str) -> (r: Option<String>)
    ensures
        r.deep_view() == spec_extract_filename(content_disposition@),
{
    let parts = text::split_char(content_disposition, ';');
    let ghost pd = parts.deep_view();
    proof {
        assert(pd.skip(0) =~~= pd);
    }
    let n = parts.len();
    let mut k: usize = 0;
    while k < n
        invariant
            n == parts.len(),
            pd == parts.deep_view(),
            pd == spec_split(content_disposition@, ';'),
            pd.len() == n,
            k <= n,
            spec_filename_from_parts(pd) == spec_filename_from_parts(pd.skip(k as int)),
        decreases n - k,
    {
        proof {
            assert(pd.skip(k as int)[0] == pd[k as int]);
            assert(pd.skip(k as int).skip(1) =~~= pd.skip(k + 1));
        }
        let trimmed = text::trim_text(parts[k].as_str());
        if text::str_starts_with(trimmed.as_str(), "filename=") {
            proof {
                reveal_strlit("filename=");
            }
            let tn = trimmed.as_str().unicode_len();
            let tail = trimmed.as_str().substring_char(9, tn);
            let name = text::trim_matches_char(tail, '"');
            proof {
                assert(trimmed@ == spec_trim(pd[k as int]));
                assert(tail@ =~= spec_trim(pd[k as int]).skip(9));
                assert(spec_filename_from_parts(pd.skip(k as int)) == Some(
                    spec_trim_matches(spec_trim(pd[k as int]).skip(9), '"'),
                ));
                assert(Some(name).deep_view() == Some(name@));
            }
            return Some(name);
        }
        k = k + 1;
    }
    proof {
        assert(pd.skip(n as int) =~~= Seq::<Seq<char>>::empty());
    }
    None
}

/// The file name a download resolves to: the `Content-Disposition` name when
/// one is present, otherwise the fallback `file`.
pub open spec fn spec_resolve_file_name(cd: Option<Seq<char>>) -> Seq<char> {
    match cd {
        Some(c) => match spec_extract_filename(c) {
            Some(n) => n,
            None => "file"@,
        },
        None => "file"@,
    }
}

pub fn resolve_file_name(content_disposition: &Option<String>) -> (r: String)
    ensures
        r@ == spec_resolve_file_name(content_disposition.deep_view()),
{
    match content_disposition {
        Some(cd) => match extract_filename_from_disposition(cd.as_str()) {
            Some(name) => name,
            None => String::from_str("file"),
        },
        None => String::from_str("file"),
    }
}

/// Step two of the protocol: a `304` answer means the cached blob is fresh;
/// any other success status means a full download, whose declared length is
/// required; everything else is a transport failure.
pub fn download_decision(resp: &HttpInfo) -> (r: Result<FetchDecision, FetchError>)
    ensures
        spec_decision_uses_cache(*resp) ==> r == Ok::<FetchDecision, FetchError>(
            FetchDecision::UseCache,
        ),
        spec_decision_downloads(*resp) && spec_has_length(*resp) ==> (r matches Ok(
            FetchDecision::Download { file_name, total_size },
        ) && file_name@ == spec_resolve_file_name(resp.content_disposition.deep_view())
            && Some(total_size) == spec_parse_u64(resp.content_length->0@)),
        spec_decision_downloads(*resp) && !spec_has_length(*resp) ==> r == Err::<
            FetchDecision,
            FetchError,
        >(FetchError::MissingLength),
        !spec_decision_uses_cache(*resp) && !spec_decision_downloads(*resp) ==> r == Err::<
            FetchDecision,
            FetchError,
        >(FetchError::Transport),
{
    if resp.status == 304 {
        return Ok(FetchDecision::UseCache);
    }
    if !(200 <= resp.status && resp.status < 300) {
        return Err(FetchError::Transport);
    }
    let size = match &resp.content_length {
        Some(l) => parse_u64(l.as_str()),
        None => None,
    };
    match size {
        Some(total_size) => {
            let file_name = resolve_file_name(&resp.content_disposition);
            Ok(FetchDecision::Download { file_name, total_size })
        },
        None => Err(FetchError::MissingLength),
    }
}

/// Step three: after a full download the record holds the response's
/// validators and the resolved file name, and both files exist.
pub fn record_download(entry: &mut CacheEntry, resp: &HttpInfo, file_name: &str)
    ensures
        final(entry).cache_dir@ == old(entry).cache_dir@,
        final(entry).url_hash == old(entry).url_hash,
        final(entry).blob_exists,
        final(entry).meta_exists,
        final(entry).metadata.file_name@ == file_name@,
        final(entry).metadata.etag == resp.etag,
        final(entry).metadata.last_modified == resp.last_modified,
{
    entry.metadata = Metadata {
        file_name: String::from_str(file_name),
        etag: clone_opt(&resp.etag),
        last_modified: clone_opt(&resp.last_modified),
    };
    entry.blob_exists = true;
    entry.meta_exists = true;
}

/// The cached blob after one protocol round: a download replaces it with the
/// response body, a cache hit leaves it untouched.
pub open spec fn spec_blob_after(cached: Seq<u8>, body: Seq<u8>, downloaded: bool) -> Seq<u8> {
    if downloaded {
        body
    } else {
        cached
    }
}

/// Two consecutive fetches of one URL against an unchanged resource perform
/// exactly one full download.  The first round finds no usable record, so it
/// fetches unconditionally, and the success response makes it download and
/// record the validators; the second round finds a valid record with
/// validators, so it revalidates, and the `304` answer makes it keep the
/// cached blob — which still holds the first download's content.
pub proof fn lemma_fetch_twice_downloads_once(
    entry0: CacheEntry,
    entry1: CacheEntry,
    resp1: HttpInfo,
    resp2: HttpInfo,
    blob0: Seq<u8>,
    body1: Seq<u8>,
    body2: Seq<u8>,
)
    requires
        !(entry0.blob_exists && entry0.meta_exists),
        spec_success(resp1.status),
        resp1.status != 304,
        spec_has_length(resp1),
        resp1.etag is Some || resp1.last_modified is Some,
        entry1.blob_exists,
        entry1.meta_exists,
        entry1.metadata.etag == resp1.etag,
        entry1.metadata.last_modified == resp1.last_modified,
        resp2.status == 304,
    ensures
        spec_needs_full_fetch(entry0),
        spec_decision_downloads(resp1),
        !spec_needs_full_fetch(entry1),
        spec_decision_uses_cache(resp2),
        !spec_decision_downloads(resp2),
        spec_blob_after(
            spec_blob_after(blob0, body1, spec_decision_downloads(resp1)),
            body2,
            spec_decision_downloads(resp2),
        ) == body1,
{
}

} // verus!
