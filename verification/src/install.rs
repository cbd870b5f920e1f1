//! The archive installation protocol.  The unverified shell extracts the
//! downloaded blob into an empty scratch directory — trying it as a zip
//! container first and as a gzip-compressed tar second — and reports the
//! outcome: the scratch directory's top-level entries, or that neither
//! format fit.  The plan computed here validates the extraction's shape and
//! names the single rename that makes the version directory appear; on any
//! error there is no plan, so the final directory is never created, and the
//! scratch directory absorbs all partial state.

use vstd::prelude::*;
use crate::path::DirPath;
use crate::tool_version::{ToolVersion, spec_version_path};

verus! {

/// One top-level entry of the scratch directory after extraction.  The
/// payload beneath it is abstracted to `content_id`.
pub struct ScratchEntry {
    pub name: String,
    pub is_dir: bool,
    pub content_id: u64,
}

/// Why an installation fails.
#[derive(Debug)]
pub enum InstallError {
    /// The blob is neither a zip nor a gzip-tar container.
    UnrecognizedFormat,
    /// The extraction did not yield exactly one top-level directory.
    UnexpectedLayout,
    /// The version directory already exists and overwriting was not asked.
    AlreadyInstalled,
}

/// The filesystem actions of a successful installation, in order: remove
/// the existing target when told to, create the target's parents, rename
/// the source onto the target, mark the files under `bin` executable.
pub struct InstallPlan {
    pub remove_existing: bool,
    pub source: DirPath,
    pub target: DirPath,
    pub bin_dir: DirPath,
    pub content_id: u64,
}

/// Validates an extraction and plans the installation of `tv`.
pub fn install_plan(
    tv: &ToolVersion,
    extraction: &Option<Vec<ScratchEntry>>,
    work_dir: &DirPath,
    target_exists: bool,
    overwrite: bool,
) -> (r: Result<InstallPlan, InstallError>)
    ensures
        extraction is None ==> r == Err::<InstallPlan, InstallError>(
            InstallError::UnrecognizedFormat,
        ),
        (extraction is Some && !(extraction->0@.len() == 1 && extraction->0@[0].is_dir)) ==> r
            == Err::<InstallPlan, InstallError>(InstallError::UnexpectedLayout),
        (extraction is Some && extraction->0@.len() == 1 && extraction->0@[0].is_dir
            && target_exists && !overwrite) ==> r == Err::<InstallPlan, InstallError>(
            InstallError::AlreadyInstalled,
        ),
        (extraction is Some && extraction->0@.len() == 1 && extraction->0@[0].is_dir
            && (!target_exists || overwrite)) ==> (r matches Ok(p) && p.remove_existing
            == target_exists && p.source@ == work_dir@.push(extraction->0@[0].name@) && p.target@
            == spec_version_path(tv@) && p.bin_dir@ == spec_version_path(tv@).push("bin"@)
            && p.content_id == extraction->0@[0].content_id),
{
    match extraction {
        None => Err(InstallError::UnrecognizedFormat),
        Some(es) => {
            if es.len() != 1 {
                return Err(InstallError::UnexpectedLayout);
            }
            let entry = &es[0];
            if !entry.is_dir {
                return Err(InstallError::UnexpectedLayout);
            }
            if target_exists && !overwrite {
                return Err(InstallError::AlreadyInstalled);
            }
            Ok(
                InstallPlan {
                    remove_existing: target_exists,
                    source: work_dir.child_string(&entry.name),
                    target: tv.path(),
                    bin_dir: tv.bin(),
                    content_id: entry.content_id,
                },
            )
        },
    }
}

} // verus!
