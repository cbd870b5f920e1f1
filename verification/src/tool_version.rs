//! A `(tool, version)` pair under an installation root, and the paths and
//! environment names derived from it.

use vstd::prelude::*;
use vstd::string::*;
use crate::home::RsdkHomeDir;
use crate::path::DirPath;
use crate::text;

verus! {

/// The ghost shape of a `ToolVersion`: its root and its two identifiers.
pub ghost struct ToolVersionView {
    pub root: Seq<Seq<char>>,
    pub tool: Seq<char>,
    pub version: Seq<char>,
}

pub struct ToolVersion {
    pub rsdk: RsdkHomeDir,
    pub tool: String,
    pub version: String,
}

impl View for ToolVersion {
    type V = ToolVersionView;

    open spec fn view(&self) -> ToolVersionView {
        ToolVersionView { root: self.rsdk@, tool: self.tool@, version: self.version@ }
    }
}

/// The version directory path for a root and a pair, as component sequences.
pub open spec fn spec_version_path(tv: ToolVersionView) -> Seq<Seq<char>> {
    tv.root.push("tools"@).push(tv.tool).push(tv.version)
}

/// The name of the tool's home environment variable: the upper-cased tool
/// name followed by `_HOME`.
pub open spec fn spec_home_env(tool: Seq<char>) -> Seq<char> {
    text::spec_upper(tool) + "_HOME"@
}

impl ToolVersion {
    pub fn new(dir: &RsdkHomeDir, tool: &str, version: &str) -> (r: ToolVersion)
        ensures
            r@.root == dir@,
            r@.tool == tool@,
            r@.version == version@,
    {
        ToolVersion {
            rsdk: dir.duplicate(),
            tool: String::from_str(tool),
            version: String::from_str(version),
        }
    }

    /// A structural copy.
    pub fn duplicate(&self) -> (r: ToolVersion)
        ensures
            r@ == self@,
    {
        ToolVersion {
            rsdk: self.rsdk.duplicate(),
            tool: self.tool.clone(),
            version: self.version.clone(),
        }
    }

    /// `<root>/tools/<tool>/<version>`.
    pub fn path(&self) -> (r: DirPath)
        ensures
            r@ == spec_version_path(self@),
    {
        self.rsdk.tool_dir(self.tool.as_str()).child_string(&self.version)
    }

    /// `<root>/tools/<tool>/<version>/bin`.
    pub fn bin(&self) -> (r: DirPath)
        ensures
            r@ == spec_version_path(self@).push("bin"@),
    {
        self.path().child("bin")
    }

    /// The name of the tool's home environment variable.
    pub fn home(&self) -> (r: String)
        ensures
            r@ == spec_home_env(self@.tool),
    {
        home_env(self.tool.as_str())
    }

    /// Whether the environment value stored under the tool's home variable
    /// designates this version's directory.
    pub fn is_current(&self, env_home: &Option<String>) -> (r: bool)
        ensures
            r == match env_home {
                Some(v) => v@ == text::spec_join(spec_version_path(self@), '/'),
                None => false,
            },
    {
        match env_home {
            Some(v) => {
                let rendered = self.path().render();
                text::str_eq(v.as_str(), rendered.as_str())
            },
            None => false,
        }
    }
}

/// The tool's home environment variable name, `<TOOL>_HOME`.
pub fn home_env(tool: &str) -> (r: String)
    ensures
        r@ == spec_home_env(tool@),
{
    let mut r = text::to_upper(tool);
    r.append("_HOME");
    r
}

} // verus!
