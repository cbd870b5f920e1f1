//! The catalog client's computation: the endpoint URLs it asks, how a
//! requested version resolves against the catalog's default, and the
//! decoding of the candidate list.  The HTTP requests themselves are the
//! unverified shell's work.

use vstd::prelude::*;
use vstd::string::*;
use crate::text;
use crate::text::{spec_split, spec_trim, spec_lines};

verus! {

/// The catalog's endpoints for one base URL and one platform identifier.
/// The platform identifier is computed once by the shell from the host
/// OS/architecture pair (`linuxx64`, `darwinarm64`, `windowsx64`, ...).
pub struct ApiEndpoints {
    pub base_url: String,
    pub platform: String,
}

impl ApiEndpoints {
    pub fn new(base_url: &str, platform: &str) -> (r: ApiEndpoints)
        ensures
            r.base_url@ == base_url@,
            r.platform@ == platform@,
    {
        ApiEndpoints { base_url: String::from_str(base_url), platform: String::from_str(platform) }
    }

    /// The tool identifier list, comma-separated.
    pub fn tools_all_url(&self) -> (r: String)
        ensures
            r@ == self.base_url@ + "/candidates/all"@,
    {
        let mut r = self.base_url.clone();
        r.append("/candidates/all");
        r
    }

    /// The human-readable tool listing.
    pub fn tools_list_url(&self) -> (r: String)
        ensures
            r@ == self.base_url@ + "/candidates/list"@,
    {
        let mut r = self.base_url.clone();
        r.append("/candidates/list");
        r
    }

    /// The tabular version listing of one tool at this platform.
    pub fn tool_versions_url(&self, tool: &str) -> (r: String)
        ensures
            r@ == self.base_url@ + "/candidates/"@ + tool@ + "/"@ + self.platform@
                + "/versions/list?installed="@,
    {
        let mut r = self.base_url.clone();
        r.append("/candidates/");
        r.append(tool);
        r.append("/");
        r.append(self.platform.as_str());
        r.append("/versions/list?installed=");
        r
    }

    /// The bare default-version string of one tool.
    pub fn default_version_url(&self, tool: &str) -> (r: String)
        ensures
            r@ == self.base_url@ + "/candidates/default/"@ + tool@,
    {
        let mut r = self.base_url.clone();
        r.append("/candidates/default/");
        r.append(tool);
        r
    }

    /// The binary archive of one tool version at this platform.
    pub fn download_url(&self, tool: &str, version: &str) -> (r: String)
        ensures
            r@ == self.base_url@ + "/broker/download/"@ + tool@ + "/"@ + version@ + "/"@
                + self.platform@,
    {
        let mut r = self.base_url.clone();
        r.append("/broker/download/");
        r.append(tool);
        r.append("/");
        r.append(version);
        r.append("/");
        r.append(self.platform.as_str());
        r
    }
}

/// The tool identifiers of the comma-separated catalog answer.
pub fn tools_from_text(text: &str) -> (r: Vec<String>)
    ensures
        r.deep_view() == spec_split(text@, ','),
{
    text::split_char(text, ',')
}

/// The version an install resolves to: the requested one, or the catalog's
/// stated default when none was requested.
pub fn resolve_install_version(requested: &Option<String>, catalog_default: &str) -> (r: String)
    ensures
        r@ == match requested {
            Some(v) => v@,
            None => catalog_default@,
        },
{
    match requested {
        Some(v) => v.clone(),
        None => String::from_str(catalog_default),
    }
}

/// The candidate names of a candidates file: its lines, trimmed, without
/// the empty ones.
pub open spec fn spec_candidate_names(ls: Seq<Seq<char>>) -> Seq<Seq<char>>
    decreases ls.len(),
{
    if ls.len() == 0 {
        Seq::<Seq<char>>::empty()
    } else if spec_trim(ls[0]).len() > 0 {
        seq![spec_trim(ls[0])] + spec_candidate_names(ls.skip(1))
    } else {
        spec_candidate_names(ls.skip(1))
    }
}

pub fn candidates_from_text(contents: &str) -> (r: Vec<String>)
    ensures
        r.deep_view() == spec_candidate_names(spec_lines(contents@)),
{
    let lines = text::split_lines(contents);
    let ghost ld = lines.deep_view();
    let mut r: Vec<String> = Vec::new();
    proof {
        assert(ld.skip(0) =~~= ld);
        assert(r.deep_view() + spec_candidate_names(ld) =~~= spec_candidate_names(ld));
    }
    let n = lines.len();
    let mut k: usize = 0;
    while k < n
        invariant
            n == lines.len(),
            ld == lines.deep_view(),
            ld.len() == n,
            k <= n,
            spec_candidate_names(ld) =~~= r.deep_view() + spec_candidate_names(
                ld.skip(k as int),
            ),
        decreases n - k,
    {
        proof {
            assert(ld.skip(k as int)[0] == ld[k as int]);
            assert(ld.skip(k as int).skip(1) =~~= ld.skip(k + 1));
        }
        let ghost old_deep = r.deep_view();
        let trimmed = text::trim_text(lines[k].as_str());
        if trimmed.as_str().unicode_len() > 0 {
            r.push(trimmed);
            proof {
                assert(r.deep_view() =~~= old_deep + seq![spec_trim(ld[k as int])]);
            }
        }
        k = k + 1;
    }
    proof {
        assert(ld.skip(n as int) =~~= Seq::<Seq<char>>::empty());
    }
    r
}

/// Whether a candidate stands in the list of available candidates.
pub fn test_candidate_present(candidate: &str, candidates: &Vec<String>) -> (r: bool)
    ensures
        r == candidates.deep_view().contains(candidate@),
{
    let n = candidates.len();
    let mut k: usize = 0;
    while k < n
        invariant
            n == candidates.len(),
            n == candidates.deep_view().len(),
            k <= n,
            forall|i: int| 0 <= i < k ==> candidates.deep_view()[i] != candidate@,
        decreases n - k,
    {
        if text::str_eq(candidates[k].as_str(), candidate) {
            proof {
                assert(candidates.deep_view()[k as int] == candidate@);
            }
            return true;
        }
        k = k + 1;
    }
    proof {
        assert(!candidates.deep_view().contains(candidate@));
    }
    false
}

} // verus!
