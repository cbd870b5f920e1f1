//! The installation root: a directory tree `tools/` + `cache/` + `temp/`
//! under one root path.  Only path computation lives here; the unverified
//! shell creates the directories and supplies the root.

use vstd::prelude::*;
use crate::path::DirPath;

verus! {

pub struct RsdkHomeDir {
    pub root: DirPath,
}

impl View for RsdkHomeDir {
    type V = Seq<Seq<char>>;

    open spec fn view(&self) -> Seq<Seq<char>> {
        self.root@
    }
}

impl RsdkHomeDir {
    /// A home rooted at the given path.
    pub fn from_root(root: DirPath) -> (r: RsdkHomeDir)
        ensures
            r@ == root@,
    {
        RsdkHomeDir { root }
    }

    /// A structural copy.
    pub fn duplicate(&self) -> (r: RsdkHomeDir)
        ensures
            r@ == self@,
    {
        RsdkHomeDir { root: self.root.duplicate() }
    }

    /// `<root>/tools`, one subdirectory per installed tool.
    pub fn tools(&self) -> (r: DirPath)
        ensures
            r@ == self@.push("tools"@),
    {
        self.root.child("tools")
    }

    /// `<root>/cache`, the content cache store.
    pub fn cache(&self) -> (r: DirPath)
        ensures
            r@ == self@.push("cache"@),
    {
        self.root.child("cache")
    }

    /// `<root>/temp`, the scratch area, empty at every process start.
    pub fn temp(&self) -> (r: DirPath)
        ensures
            r@ == self@.push("temp"@),
    {
        self.root.child("temp")
    }

    /// `<root>/tools/<tool>`.
    pub fn tool_dir(&self, tool: &str) -> (r: DirPath)
        ensures
            r@ == self@.push("tools"@).push(tool@),
    {
        self.tools().child(tool)
    }

    /// `<root>/tools/<tool>/default`, the default-version symlink.
    pub fn default_symlink_path(&self, tool: &str) -> (r: DirPath)
        ensures
            r@ == self@.push("tools"@).push(tool@).push("default"@),
    {
        self.tool_dir(tool).child("default")
    }
}

} // verus!
