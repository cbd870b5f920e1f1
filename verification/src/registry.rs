//! The registry of installed versions: a model of the `tools/` tree.  One
//! `ToolDir` per tool directory, one `VersionDir` per version subdirectory,
//! and the raw target of the tool's `default` symlink, if any.  The
//! unverified shell builds this snapshot by walking the tree, and replays
//! the transitions (`apply_install`, `apply_uninstall`, `make_default`) on
//! disk; installed/default/current state is always derived from it, never
//! stored elsewhere.
//!
//! A version directory's payload is abstracted to a `content_id`, so that
//! relocation can be stated: the rename that installs a version moves the
//! extracted directory as a whole, and the model carries its identifier
//! unchanged.

use vstd::prelude::*;
use vstd::string::*;
use crate::home::RsdkHomeDir;
use crate::path::DirPath;
use crate::tool_version::{ToolVersion, spec_version_path, ToolVersionView};

verus! {

/// One version directory.
pub struct VersionDir {
    pub version: String,
    pub content_id: u64,
}

pub ghost struct VersionDirView {
    pub version: Seq<char>,
    pub content_id: u64,
}

impl View for VersionDir {
    type V = VersionDirView;

    open spec fn view(&self) -> VersionDirView {
        VersionDirView { version: self.version@, content_id: self.content_id }
    }
}

/// One tool directory: its version subdirectories and the raw target of its
/// `default` symlink, if the symlink exists.
pub struct ToolDir {
    pub name: String,
    pub versions: Vec<VersionDir>,
    pub default_target: Option<DirPath>,
}

pub ghost struct ToolDirView {
    pub name: Seq<char>,
    pub versions: Seq<VersionDirView>,
    pub default_target: Option<Seq<Seq<char>>>,
}

impl View for ToolDir {
    type V = ToolDirView;

    open spec fn view(&self) -> ToolDirView {
        ToolDirView {
            name: self.name@,
            versions: Seq::new(self.versions@.len(), |i: int| self.versions@[i]@),
            default_target: match self.default_target {
                Some(p) => Some(p@),
                None => None,
            },
        }
    }
}

/// The snapshot of the whole `tools/` tree.
pub struct RegistryState {
    pub tools: Vec<ToolDir>,
}

/// The ghost shape of a tool-directory list.
pub open spec fn spec_tools_view(ts: Seq<ToolDir>) -> Seq<ToolDirView> {
    Seq::new(ts.len(), |i: int| ts[i]@)
}

/// The ghost shape of a version-directory list.
pub open spec fn vec_dir_view(vs: Seq<VersionDir>) -> Seq<VersionDirView> {
    Seq::new(vs.len(), |i: int| vs[i]@)
}

impl View for RegistryState {
    type V = Seq<ToolDirView>;

    open spec fn view(&self) -> Seq<ToolDirView> {
        spec_tools_view(self.tools@)
    }
}

/// The version-directory path of a pair under a root, as components.
pub open spec fn spec_pair_path(root: Seq<Seq<char>>, tool: Seq<char>, version: Seq<char>) -> Seq<
    Seq<char>,
> {
    root.push("tools"@).push(tool).push(version)
}

/// The tool directory carrying a name, if one does.
pub open spec fn spec_find_tool(reg: Seq<ToolDirView>, tool: Seq<char>) -> Option<ToolDirView>
    decreases reg.len(),
{
    if reg.len() == 0 {
        None
    } else if reg[0].name == tool {
        Some(reg[0])
    } else {
        spec_find_tool(reg.skip(1), tool)
    }
}

pub open spec fn spec_has_version(vs: Seq<VersionDirView>, version: Seq<char>) -> bool {
    exists|i: int| 0 <= i < vs.len() && #[trigger] vs[i].version == version
}

/// Whether the pair's version directory exists.
pub open spec fn spec_is_installed(reg: Seq<ToolDirView>, tool: Seq<char>, version: Seq<
    char,
>) -> bool {
    match spec_find_tool(reg, tool) {
        Some(td) => spec_has_version(td.versions, version),
        None => false,
    }
}

/// The payload identifier of an installed pair.
pub open spec fn spec_content_of_versions(vs: Seq<VersionDirView>, version: Seq<char>) -> Option<
    u64,
>
    decreases vs.len(),
{
    if vs.len() == 0 {
        None
    } else if vs[0].version == version {
        Some(vs[0].content_id)
    } else {
        spec_content_of_versions(vs.skip(1), version)
    }
}

pub open spec fn spec_content_of(reg: Seq<ToolDirView>, tool: Seq<char>, version: Seq<
    char,
>) -> Option<u64> {
    match spec_find_tool(reg, tool) {
        Some(td) => spec_content_of_versions(td.versions, version),
        None => None,
    }
}

/// The raw target of a tool's `default` symlink.
pub open spec fn spec_default_target_of(reg: Seq<ToolDirView>, tool: Seq<char>) -> Option<Seq<
    Seq<char>,
>> {
    match spec_find_tool(reg, tool) {
        Some(td) => td.default_target,
        None => None,
    }
}

/// Whether the pair is the tool's default under a root.
pub open spec fn spec_is_default(
    reg: Seq<ToolDirView>,
    root: Seq<Seq<char>>,
    tool: Seq<char>,
    version: Seq<char>,
) -> bool {
    spec_default_target_of(reg, tool) == Some(spec_pair_path(root, tool, version))
}

/// Tool names are distinct and each tool's version names are distinct, as
/// directory entries are.
pub open spec fn spec_unique_versions(vs: Seq<VersionDirView>) -> bool {
    forall|i: int, j: int| 0 <= i < j < vs.len() ==> vs[i].version != vs[j].version
}

pub open spec fn spec_wf(reg: Seq<ToolDirView>) -> bool {
    &&& forall|i: int, j: int| 0 <= i < j < reg.len() ==> reg[i].name != reg[j].name
    &&& forall|k: int|
        0 <= k < reg.len() ==> spec_unique_versions(#[trigger] reg[k].versions)
}

/// The installed `(tool, version)` pairs, in walk order.
pub open spec fn spec_tool_pairs(td: ToolDirView) -> Seq<(Seq<char>, Seq<char>)> {
    Seq::new(td.versions.len(), |i: int| (td.name, td.versions[i].version))
}

pub open spec fn spec_all_pairs(reg: Seq<ToolDirView>) -> Seq<(Seq<char>, Seq<char>)>
    decreases reg.len(),
{
    if reg.len() == 0 {
        Seq::<(Seq<char>, Seq<char>)>::empty()
    } else {
        spec_tool_pairs(reg[0]) + spec_all_pairs(reg.skip(1))
    }
}

/// The version names of one tool, in walk order.
pub open spec fn spec_versions_of(reg: Seq<ToolDirView>, tool: Seq<char>) -> Seq<Seq<char>> {
    match spec_find_tool(reg, tool) {
        Some(td) => Seq::new(td.versions.len(), |i: int| td.versions[i].version),
        None => Seq::<Seq<char>>::empty(),
    }
}

/// The `(tool, version)` view of an executable list of pairs.
pub open spec fn spec_pairs_of(s: Seq<ToolVersion>) -> Seq<(Seq<char>, Seq<char>)> {
    Seq::new(s.len(), |i: int| (s[i]@.tool, s[i]@.version))
}

/// All pairs of `s` are rooted at `root`.
pub open spec fn spec_rooted(s: Seq<ToolVersion>, root: Seq<Seq<char>>) -> bool {
    forall|i: int| 0 <= i < s.len() ==> (#[trigger] s[i]@).root == root
}

impl VersionDir {
    pub fn duplicate(&self) -> (r: VersionDir)
        ensures
            r@ == self@,
    {
        VersionDir { version: self.version.clone(), content_id: self.content_id }
    }
}

impl ToolDir {
    pub fn duplicate(&self) -> (r: ToolDir)
        ensures
            r@ == self@,
    {
        let mut versions: Vec<VersionDir> = Vec::new();
        let n = self.versions.len();
        let mut i: usize = 0;
        while i < n
            invariant
                n == self.versions.len(),
                i <= n,
                versions@.len() == i,
                forall|k: int| 0 <= k < i ==> versions@[k]@ == self.versions@[k]@,
            decreases n - i,
        {
            versions.push(self.versions[i].duplicate());
            i = i + 1;
        }
        let default_target = match &self.default_target {
            Some(p) => Some(p.duplicate()),
            None => None,
        };
        let r = ToolDir { name: self.name.clone(), versions, default_target };
        proof {
            assert(r@.versions =~= self@.versions);
        }
        r
    }
}

impl RegistryState {
    /// The empty tree.
    pub fn empty() -> (r: RegistryState)
        ensures
            r@ == Seq::<ToolDirView>::empty(),
    {
        let r = RegistryState { tools: Vec::new() };
        proof {
            assert(r@ =~= Seq::<ToolDirView>::empty());
        }
        r
    }

    /// The index of the tool's directory, scanning in walk order.
    fn find_tool_index(&self, tool: &str) -> (r: Option<usize>)
        ensures
            match r {
                Some(i) => i < self@.len() && self@[i as int].name == tool@
                    && spec_find_tool(self@, tool@) == Some(self@[i as int]) && forall|k: int|
                    0 <= k < i ==> (#[trigger] self@[k]).name != tool@,
                None => spec_find_tool(self@, tool@) is None,
            },
    {
        let n = self.tools.len();
        proof {
            assert(self@.skip(0) =~= self@);
        }
        let mut k: usize = 0;
        while k < n
            invariant
                n == self.tools.len(),
                n == self@.len(),
                k <= n,
                spec_find_tool(self@, tool@) == spec_find_tool(self@.skip(k as int), tool@),
                forall|q: int| 0 <= q < k ==> (#[trigger] self@[q]).name != tool@,
            decreases n - k,
        {
            proof {
                assert(self@.skip(k as int)[0] == self@[k as int]);
                assert(self@.skip(k as int).skip(1) =~= self@.skip(k + 1));
            }
            if crate::text::str_eq(self.tools[k].name.as_str(), tool) {
                return Some(k);
            }
            k = k + 1;
        }
        proof {
            assert(self@.skip(n as int) =~= Seq::<ToolDirView>::empty());
        }
        None
    }

    /// Whether the pair's version directory exists.
    pub fn is_installed_pair(&self, tool: &str, version: &str) -> (r: bool)
        ensures
            r == spec_is_installed(self@, tool@, version@),
    {
        match self.find_tool_index(tool) {
            None => false,
            Some(i) => {
                let td = &self.tools[i];
                let m = td.versions.len();
                let mut j: usize = 0;
                while j < m
                    invariant
                        m == td.versions.len(),
                        td == self.tools@[i as int],
                        i < self@.len(),
                        self@[i as int].versions.len() == m,
                        spec_find_tool(self@, tool@) == Some(self@[i as int]),
                        j <= m,
                        forall|k: int|
                            0 <= k < j ==> self@[i as int].versions[k].version != version@,
                    decreases m - j,
                {
                    if crate::text::str_eq(td.versions[j].version.as_str(), version) {
                        proof {
                            assert(self@[i as int].versions[j as int].version == version@);
                        }
                        return true;
                    }
                    j = j + 1;
                }
                proof {
                    assert(!spec_has_version(self@[i as int].versions, version@));
                }
                false
            },
        }
    }
}

impl ToolVersion {
    /// Whether this pair's version directory exists in the snapshot.
    pub fn is_installed(&self, reg: &RegistryState) -> (r: bool)
        ensures
            r == spec_is_installed(reg@, self@.tool, self@.version),
    {
        reg.is_installed_pair(self.tool.as_str(), self.version.as_str())
    }

    /// Whether the tool's `default` symlink resolves to this version's
    /// directory.
    pub fn is_default(&self, reg: &RegistryState) -> (r: bool)
        ensures
            r == spec_is_default(reg@, self@.root, self@.tool, self@.version),
    {
        match reg.find_tool_index(self.tool.as_str()) {
            None => false,
            Some(i) => {
                match &reg.tools[i].default_target {
                    None => false,
                    Some(target) => {
                        let own = self.path();
                        proof {
                            assert(spec_version_path(self@) == spec_pair_path(
                                self@.root,
                                self@.tool,
                                self@.version,
                            ));
                        }
                        target.path_eq(&own)
                    },
                }
            },
        }
    }
}

impl RsdkHomeDir {
    /// Every installed pair, one entry per version directory, in walk order.
    pub fn all_installed(&self, reg: &RegistryState) -> (r: Vec<ToolVersion>)
        ensures
            spec_pairs_of(r@) == spec_all_pairs(reg@),
            spec_rooted(r@, self@),
    {
        let mut r: Vec<ToolVersion> = Vec::new();
        proof {
            assert(reg@.skip(0) =~= reg@);
            assert(spec_pairs_of(r@) + spec_all_pairs(reg@) =~= spec_all_pairs(reg@));
        }
        let n = reg.tools.len();
        let mut k: usize = 0;
        while k < n
            invariant
                n == reg.tools.len(),
                n == reg@.len(),
                k <= n,
                spec_all_pairs(reg@) =~= spec_pairs_of(r@) + spec_all_pairs(reg@.skip(k as int)),
                spec_rooted(r@, self@),
            decreases n - k,
        {
            proof {
                assert(reg@.skip(k as int)[0] == reg@[k as int]);
                assert(reg@.skip(k as int).skip(1) =~= reg@.skip(k + 1));
            }
            let td = &reg.tools[k];
            let m = td.versions.len();
            let mut j: usize = 0;
            while j < m
                invariant
                    m == td.versions.len(),
                    td == reg.tools@[k as int],
                    k < reg@.len(),
                    reg@[k as int].versions.len() == m,
                    j <= m,
                    spec_all_pairs(reg@) =~= spec_pairs_of(r@) + spec_tool_pairs(
                        reg@[k as int],
                    ).skip(j as int) + spec_all_pairs(reg@.skip(k + 1)),
                    spec_rooted(r@, self@),
                decreases m - j,
            {
                let ghost old_pairs = spec_pairs_of(r@);
                r.push(ToolVersion::new(self, td.name.as_str(), td.versions[j].version.as_str()));
                proof {
                    assert(spec_pairs_of(r@) =~= old_pairs.push(
                        (reg@[k as int].name, reg@[k as int].versions[j as int].version),
                    ));
                    assert(spec_tool_pairs(reg@[k as int]).skip(j as int)[0] == (
                        reg@[k as int].name,
                        reg@[k as int].versions[j as int].version,
                    ));
                    assert(spec_tool_pairs(reg@[k as int]).skip(j as int).skip(1)
                        =~= spec_tool_pairs(reg@[k as int]).skip(j + 1));
                    assert(spec_all_pairs(reg@) =~= spec_pairs_of(r@) + spec_tool_pairs(
                        reg@[k as int],
                    ).skip(j + 1) + spec_all_pairs(reg@.skip(k + 1)));
                }
                j = j + 1;
            }
            proof {
                assert(spec_tool_pairs(reg@[k as int]).skip(m as int) =~= Seq::<(
                    Seq<char>,
                    Seq<char>,
                )>::empty());
                assert(spec_all_pairs(reg@) =~= spec_pairs_of(r@) + spec_all_pairs(
                    reg@.skip(k + 1),
                ));
            }
            k = k + 1;
        }
        proof {
            assert(reg@.skip(n as int) =~= Seq::<ToolDirView>::empty());
            assert(spec_all_pairs(reg@) =~= spec_pairs_of(r@));
        }
        r
    }

    /// The installed versions of one tool, in walk order.
    pub fn installed_versions(&self, reg: &RegistryState, tool: &str) -> (r: Vec<ToolVersion>)
        ensures
            r@.len() == spec_versions_of(reg@, tool@).len(),
            forall|i: int|
                0 <= i < r@.len() ==> (#[trigger] r@[i]@).version == spec_versions_of(
                    reg@,
                    tool@,
                )[i] && r@[i]@.tool == tool@ && r@[i]@.root == self@,
    {
        let mut r: Vec<ToolVersion> = Vec::new();
        match reg.find_tool_index(tool) {
            None => r,
            Some(i) => {
                let td = &reg.tools[i];
                let m = td.versions.len();
                let mut j: usize = 0;
                while j < m
                    invariant
                        m == td.versions.len(),
                        td == reg.tools@[i as int],
                        i < reg@.len(),
                        reg@[i as int].versions.len() == m,
                        spec_find_tool(reg@, tool@) == Some(reg@[i as int]),
                        j <= m,
                        r@.len() == j,
                        forall|q: int|
                            0 <= q < j ==> (#[trigger] r@[q]@).version
                                == reg@[i as int].versions[q].version && r@[q]@.tool == tool@
                                && r@[q]@.root == self@,
                    decreases m - j,
                {
                    r.push(ToolVersion::new(self, tool, td.versions[j].version.as_str()));
                    j = j + 1;
                }
                r
            },
        }
    }

    /// The installed version of a tool that its `default` symlink points at,
    /// if any.
    pub fn default_version(&self, reg: &RegistryState, tool: &str) -> (r: Option<ToolVersion>)
        ensures
            match r {
                Some(tv) => tv@.root == self@ && tv@.tool == tool@ && spec_is_installed(
                    reg@,
                    tool@,
                    tv@.version,
                ) && spec_is_default(reg@, self@, tool@, tv@.version),
                None => forall|v: Seq<char>|
                    !(spec_is_installed(reg@, tool@, v) && #[trigger] spec_is_default(
                        reg@,
                        self@,
                        tool@,
                        v,
                    )),
            },
    {
        match reg.find_tool_index(tool) {
            None => None,
            Some(i) => {
                let td = &reg.tools[i];
                let m = td.versions.len();
                let mut j: usize = 0;
                while j < m
                    invariant
                        m == td.versions.len(),
                        td == reg.tools@[i as int],
                        i < reg@.len(),
                        reg@[i as int].versions.len() == m,
                        spec_find_tool(reg@, tool@) == Some(reg@[i as int]),
                        j <= m,
                        forall|q: int|
                            0 <= q < j ==> !spec_is_default(
                                reg@,
                                self@,
                                tool@,
                                (#[trigger] reg@[i as int].versions[q]).version,
                            ),
                    decreases m - j,
                {
                    let tv = ToolVersion::new(self, tool, td.versions[j].version.as_str());
                    if tv.is_default(reg) {
                        proof {
                            assert(spec_has_version(
                                reg@[i as int].versions,
                                reg@[i as int].versions[j as int].version,
                            ));
                        }
                        return Some(tv);
                    }
                    j = j + 1;
                }
                proof {
                    assert forall|v: Seq<char>|
                        !(spec_is_installed(reg@, tool@, v) && #[trigger] spec_is_default(
                            reg@,
                            self@,
                            tool@,
                            v,
                        )) by {
                        if spec_is_installed(reg@, tool@, v) {
                            let q = choose|q: int|
                                0 <= q < reg@[i as int].versions.len()
                                    && #[trigger] reg@[i as int].versions[q].version == v;
                            assert(!spec_is_default(
                                reg@,
                                self@,
                                tool@,
                                reg@[i as int].versions[q].version,
                            ));
                        }
                    }
                }
                None
            },
        }
    }

    /// Every installed pair whose tool's `default` symlink points at it, in
    /// walk order; used once at shell attach to seed the environment.
    pub fn all_defaults(&self, reg: &RegistryState) -> (r: Vec<ToolVersion>)
        ensures
            spec_rooted(r@, self@),
            spec_pairs_of(r@) == spec_default_filter(spec_all_pairs(reg@), reg@, self@),
    {
        let all = self.all_installed(reg);
        let r = filter_defaults(self, reg, all);
        r
    }
}

/// The pairs that are installed and marked default, in their given order.
pub open spec fn spec_default_filter(
    ps: Seq<(Seq<char>, Seq<char>)>,
    reg: Seq<ToolDirView>,
    root: Seq<Seq<char>>,
) -> Seq<(Seq<char>, Seq<char>)>
    decreases ps.len(),
{
    if ps.len() == 0 {
        ps
    } else if spec_is_default(reg, root, ps[0].0, ps[0].1) && spec_is_installed(
        reg,
        ps[0].0,
        ps[0].1,
    ) {
        seq![ps[0]] + spec_default_filter(ps.skip(1), reg, root)
    } else {
        spec_default_filter(ps.skip(1), reg, root)
    }
}

/// Keeps the pairs whose tool marks them default.
fn filter_defaults(home: &RsdkHomeDir, reg: &RegistryState, all: Vec<ToolVersion>) -> (r: Vec<
    ToolVersion,
>)
    requires
        spec_rooted(all@, home@),
    ensures
        spec_rooted(r@, home@),
        spec_pairs_of(r@) == spec_default_filter(spec_pairs_of(all@), reg@, home@),
{
    let ghost ap = spec_pairs_of(all@);
    let n = all.len();
    let mut r: Vec<ToolVersion> = Vec::new();
    proof {
        assert(ap.skip(0) =~= ap);
        assert(spec_pairs_of(r@) + spec_default_filter(ap, reg@, home@) =~= spec_default_filter(
            ap,
            reg@,
            home@,
        ));
    }
    let mut k: usize = 0;
    while k < n
        invariant
            n == all.len(),
            ap == spec_pairs_of(all@),
            ap.len() == n,
            spec_rooted(all@, home@),
            k <= n,
            spec_rooted(r@, home@),
            spec_default_filter(ap, reg@, home@) =~= spec_pairs_of(r@) + spec_default_filter(
                ap.skip(k as int),
                reg@,
                home@,
            ),
        decreases n - k,
    {
        proof {
            assert(ap.skip(k as int)[0] == ap[k as int]);
            assert(ap.skip(k as int).skip(1) =~= ap.skip(k + 1));
        }
        let ghost old_pairs = spec_pairs_of(r@);
        let tv = &all[k];
        if tv.is_default(reg) && tv.is_installed(reg) {
            r.push(tv.duplicate());
            proof {
                assert(spec_pairs_of(r@) =~= old_pairs.push(ap[k as int]));
            }
        }
        k = k + 1;
    }
    proof {
        assert(ap.skip(n as int) =~= Seq::<(Seq<char>, Seq<char>)>::empty());
        assert(spec_pairs_of(r@) =~= spec_default_filter(ap, reg@, home@));
    }
    r
}


/// Installing a pair: its version directory appears at the end of its
/// tool's directory, which is created (with no default symlink) when absent.
pub open spec fn spec_install(
    reg: Seq<ToolDirView>,
    tool: Seq<char>,
    version: Seq<char>,
    content_id: u64,
) -> Seq<ToolDirView>
    decreases reg.len(),
{
    if reg.len() == 0 {
        seq![
            ToolDirView {
                name: tool,
                versions: seq![VersionDirView { version, content_id }],
                default_target: None,
            },
        ]
    } else if reg[0].name == tool {
        seq![
            ToolDirView {
                name: reg[0].name,
                versions: reg[0].versions.push(VersionDirView { version, content_id }),
                default_target: reg[0].default_target,
            },
        ] + reg.skip(1)
    } else {
        seq![reg[0]] + spec_install(reg.skip(1), tool, version, content_id)
    }
}

/// Pointing a tool's `default` symlink at a target.
pub open spec fn spec_set_default(
    reg: Seq<ToolDirView>,
    tool: Seq<char>,
    target: Seq<Seq<char>>,
) -> Seq<ToolDirView>
    decreases reg.len(),
{
    if reg.len() == 0 {
        reg
    } else if reg[0].name == tool {
        seq![
            ToolDirView {
                name: reg[0].name,
                versions: reg[0].versions,
                default_target: Some(target),
            },
        ] + reg.skip(1)
    } else {
        seq![reg[0]] + spec_set_default(reg.skip(1), tool, target)
    }
}

/// The version list with the named version's directory removed.
pub open spec fn spec_remove_version(vs: Seq<VersionDirView>, version: Seq<char>) -> Seq<
    VersionDirView,
>
    decreases vs.len(),
{
    if vs.len() == 0 {
        vs
    } else if vs[0].version == version {
        vs.skip(1)
    } else {
        seq![vs[0]] + spec_remove_version(vs.skip(1), version)
    }
}

/// Uninstalling a pair: its version directory goes; when it was the tool's
/// last version the whole tool directory goes; otherwise, when it was the
/// default, the first remaining sibling is promoted to default.
pub open spec fn spec_uninstall(
    reg: Seq<ToolDirView>,
    root: Seq<Seq<char>>,
    tool: Seq<char>,
    version: Seq<char>,
) -> Seq<ToolDirView>
    decreases reg.len(),
{
    if reg.len() == 0 {
        reg
    } else if reg[0].name == tool {
        let vs = spec_remove_version(reg[0].versions, version);
        if vs.len() == 0 {
            reg.skip(1)
        } else {
            let was_default = reg[0].default_target == Some(spec_pair_path(root, tool, version));
            let target = if was_default {
                Some(spec_pair_path(root, tool, vs[0].version))
            } else {
                reg[0].default_target
            };
            seq![ToolDirView { name: reg[0].name, versions: vs, default_target: target }]
                + reg.skip(1)
        }
    } else {
        seq![reg[0]] + spec_uninstall(reg.skip(1), root, tool, version)
    }
}

impl RegistryState {
    /// Records a pair as installed.
    pub fn apply_install(&mut self, tool: &str, version: &str, content_id: u64)
        ensures
            final(self)@ == spec_install(old(self)@, tool@, version@, content_id),
            spec_wf(old(self)@) && !spec_is_installed(old(self)@, tool@, version@) ==> spec_wf(
                final(self)@,
            ),
    {
        let ghost rv = self@;
        let n = self.tools.len();
        let mut new_tools: Vec<ToolDir> = Vec::new();
        let mut found = false;
        proof {
            assert(rv.skip(0) =~= rv);
            assert(spec_tools_view(new_tools@) + spec_install(rv, tool@, version@, content_id)
                =~= spec_install(rv, tool@, version@, content_id));
        }
        let mut k: usize = 0;
        while k < n
            invariant
                n == self.tools.len(),
                rv == self@,
                rv.len() == n,
                k <= n,
                !found ==> spec_install(rv, tool@, version@, content_id) =~= spec_tools_view(
                    new_tools@,
                ) + spec_install(rv.skip(k as int), tool@, version@, content_id),
                found ==> spec_install(rv, tool@, version@, content_id) =~= spec_tools_view(
                    new_tools@,
                ) + rv.skip(k as int),
            decreases n - k,
        {
            proof {
                assert(rv.skip(k as int)[0] == rv[k as int]);
                assert(rv.skip(k as int).skip(1) =~= rv.skip(k + 1));
            }
            let td = &self.tools[k];
            let ghost old_view = spec_tools_view(new_tools@);
            if !found && crate::text::str_eq(td.name.as_str(), tool) {
                let mut ntd = td.duplicate();
                ntd.versions.push(
                    VersionDir { version: String::from_str(version), content_id },
                );
                proof {
                    assert(ntd@.versions =~= rv[k as int].versions.push(
                        VersionDirView { version: version@, content_id },
                    ));
                }
                new_tools.push(ntd);
                found = true;
            } else {
                new_tools.push(td.duplicate());
            }
            proof {
                assert(spec_tools_view(new_tools@) =~= old_view.push(
                    new_tools@[new_tools@.len() - 1]@,
                ));
            }
            k = k + 1;
        }
        if !found {
            let ghost old_view = spec_tools_view(new_tools@);
            proof {
                assert(rv.skip(n as int) =~= Seq::<ToolDirView>::empty());
            }
            let mut versions: Vec<VersionDir> = Vec::new();
            versions.push(VersionDir { version: String::from_str(version), content_id });
            let ntd = ToolDir { name: String::from_str(tool), versions, default_target: None };
            proof {
                assert(ntd@.versions =~= seq![
                    VersionDirView { version: version@, content_id },
                ]);
            }
            new_tools.push(ntd);
            proof {
                assert(spec_tools_view(new_tools@) =~= old_view.push(
                    new_tools@[new_tools@.len() - 1]@,
                ));
                assert(spec_tools_view(new_tools@) =~= spec_install(
                    rv,
                    tool@,
                    version@,
                    content_id,
                ));
            }
        } else {
            proof {
                assert(rv.skip(n as int) =~= Seq::<ToolDirView>::empty());
                assert(spec_tools_view(new_tools@) =~= spec_install(
                    rv,
                    tool@,
                    version@,
                    content_id,
                ));
            }
        }
        self.tools = new_tools;
        proof {
            if spec_wf(rv) && !spec_is_installed(rv, tool@, version@) {
                lemma_install_preserves_wf(rv, tool@, version@, content_id);
            }
        }
    }
}

impl ToolVersion {
    /// Replaces the tool's `default` symlink, pointing it at this version's
    /// directory; the prior symlink, if any, goes.
    pub fn make_default(&self, reg: &mut RegistryState)
        ensures
            final(reg)@ == spec_set_default(old(reg)@, self@.tool, spec_version_path(self@)),
            spec_wf(old(reg)@) ==> spec_wf(final(reg)@),
    {
        let ghost rv = reg@;
        let ghost target = spec_version_path(self@);
        let own = self.path();
        let n = reg.tools.len();
        let mut new_tools: Vec<ToolDir> = Vec::new();
        let mut found = false;
        proof {
            assert(rv.skip(0) =~= rv);
            assert(spec_tools_view(new_tools@) + spec_set_default(rv, self@.tool, target)
                =~= spec_set_default(rv, self@.tool, target));
        }
        let mut k: usize = 0;
        while k < n
            invariant
                n == reg.tools.len(),
                rv == reg@,
                rv.len() == n,
                own@ == target,
                k <= n,
                !found ==> spec_set_default(rv, self@.tool, target) =~= spec_tools_view(
                    new_tools@,
                ) + spec_set_default(rv.skip(k as int), self@.tool, target),
                found ==> spec_set_default(rv, self@.tool, target) =~= spec_tools_view(
                    new_tools@,
                ) + rv.skip(k as int),
            decreases n - k,
        {
            proof {
                assert(rv.skip(k as int)[0] == rv[k as int]);
                assert(rv.skip(k as int).skip(1) =~= rv.skip(k + 1));
            }
            let td = &reg.tools[k];
            let ghost old_view = spec_tools_view(new_tools@);
            if !found && crate::text::str_eq(td.name.as_str(), self.tool.as_str()) {
                let mut ntd = td.duplicate();
                ntd.default_target = Some(own.duplicate());
                proof {
                    assert(ntd@.versions =~= rv[k as int].versions);
                }
                new_tools.push(ntd);
                found = true;
            } else {
                new_tools.push(td.duplicate());
            }
            proof {
                assert(spec_tools_view(new_tools@) =~= old_view.push(
                    new_tools@[new_tools@.len() - 1]@,
                ));
            }
            k = k + 1;
        }
        proof {
            assert(rv.skip(n as int) =~= Seq::<ToolDirView>::empty());
            assert(spec_tools_view(new_tools@) =~= spec_set_default(rv, self@.tool, target));
        }
        reg.tools = new_tools;
        proof {
            lemma_set_default_preserves_wf(rv, self@.tool, target);
        }
    }
}

/// What an uninstall found and did, for the shell to mirror on disk and in
/// the environment.
pub struct UninstallReport {
    pub was_default: bool,
    pub was_current: bool,
    pub removed_last: bool,
    pub promoted: Option<ToolVersion>,
}

#[derive(Debug)]
pub enum UninstallError {
    NotInstalled,
}

impl RsdkHomeDir {
    /// Removes a pair's version directory; removes the tool directory when
    /// that was its last version; promotes the first remaining sibling to
    /// default when the removed version was the default.  The report names
    /// the sibling (when one remains) so the caller can also hand it the
    /// `current` role the removed version held.
    pub fn apply_uninstall(
        &self,
        reg: &mut RegistryState,
        tool: &str,
        version: &str,
        env_home: &Option<String>,
    ) -> (r: Result<UninstallReport, UninstallError>)
        ensures
            spec_wf(old(reg)@) ==> spec_wf(final(reg)@),
            !spec_is_installed(old(reg)@, tool@, version@) ==> r == Err::<
                UninstallReport,
                UninstallError,
            >(UninstallError::NotInstalled) && final(reg)@ == old(reg)@,
            spec_is_installed(old(reg)@, tool@, version@) ==> (r matches Ok(rep)
                && final(reg)@ == spec_uninstall(old(reg)@, self@, tool@, version@)
                && rep.was_default == spec_is_default(old(reg)@, self@, tool@, version@)
                && rep.was_current == match env_home {
                    Some(v) => v@ == crate::text::spec_join(
                        spec_pair_path(self@, tool@, version@),
                        '/',
                    ),
                    None => false,
                }
                && ({
                    let vs = spec_remove_version(
                        spec_find_tool(old(reg)@, tool@)->0.versions,
                        version@,
                    );
                    &&& rep.removed_last == (vs.len() == 0)
                    &&& (vs.len() == 0 ==> rep.promoted is None)
                    &&& (vs.len() > 0 ==> (rep.promoted matches Some(tv) && tv@.root == self@
                        && tv@.tool == tool@ && tv@.version == vs[0].version))
                })),
    {
        let ghost rv = reg@;
        if !reg.is_installed_pair(tool, version) {
            return Err(UninstallError::NotInstalled);
        }
        let i = match reg.find_tool_index(tool) {
            Some(i) => i,
            None => {
                proof {
                    assert(false);
                }
                0
            },
        };
        let removed = ToolVersion::new(self, tool, version);
        let was_current = removed.is_current(env_home);
        let was_default = removed.is_default(reg);
        let td = &reg.tools[i];
        let ghost tdv = rv[i as int];

        // The tool's versions with the removed one taken out.
        let m = td.versions.len();
        let mut vs: Vec<VersionDir> = Vec::new();
        let mut hit = false;
        proof {
            assert(tdv.versions.skip(0) =~= tdv.versions);
            assert(vec_dir_view(vs@) + spec_remove_version(tdv.versions, version@)
                =~= spec_remove_version(tdv.versions, version@));
        }
        let mut j: usize = 0;
        while j < m
            invariant
                m == td.versions.len(),
                td == reg.tools@[i as int],
                i < rv.len(),
                rv == reg@,
                tdv == rv[i as int],
                tdv.versions.len() == m,
                j <= m,
                !hit ==> forall|q: int| 0 <= q < j ==> tdv.versions[q].version != version@,
                !hit ==> spec_remove_version(tdv.versions, version@) =~= vec_dir_view(vs@)
                    + spec_remove_version(tdv.versions.skip(j as int), version@),
                hit ==> spec_remove_version(tdv.versions, version@) =~= vec_dir_view(vs@)
                    + tdv.versions.skip(j as int),
            decreases m - j,
        {
            proof {
                assert(tdv.versions.skip(j as int)[0] == tdv.versions[j as int]);
                assert(tdv.versions.skip(j as int).skip(1) =~= tdv.versions.skip(j + 1));
            }
            let ghost old_vs = vec_dir_view(vs@);
            if !hit && crate::text::str_eq(td.versions[j].version.as_str(), version) {
                hit = true;
            } else {
                vs.push(td.versions[j].duplicate());
                proof {
                    assert(vec_dir_view(vs@) =~= old_vs.push(vs@[vs@.len() - 1]@));
                }
            }
            j = j + 1;
        }
        proof {
            assert(tdv.versions.skip(m as int) =~= Seq::<VersionDirView>::empty());
            if !hit {
                assert(spec_has_version(tdv.versions, version@));
                let q = choose|q: int|
                    0 <= q < tdv.versions.len() && #[trigger] tdv.versions[q].version == version@;
                assert(false);
            }
            assert(vec_dir_view(vs@) =~= spec_remove_version(tdv.versions, version@));
        }

        let removed_last = vs.len() == 0;
        let promoted: Option<ToolVersion> = if vs.len() > 0 {
            Some(ToolVersion::new(self, tool, vs[0].version.as_str()))
        } else {
            None
        };

        // Rebuild the tool list: drop or replace the tool's entry.
        let n = reg.tools.len();
        let mut new_tools: Vec<ToolDir> = Vec::new();
        proof {
            assert(rv.skip(0) =~= rv);
            assert(spec_tools_view(new_tools@) + spec_uninstall(rv, self@, tool@, version@)
                =~= spec_uninstall(rv, self@, tool@, version@));
        }
        let mut k: usize = 0;
        while k < n
            invariant
                n == reg.tools.len(),
                rv == reg@,
                rv.len() == n,
                i < n,
                rv[i as int].name == tool@,
                forall|q: int| 0 <= q < i ==> (#[trigger] rv[q]).name != tool@,
                vec_dir_view(vs@) == spec_remove_version(rv[i as int].versions, version@),
                was_default == (rv[i as int].default_target == Some(
                    spec_pair_path(self@, tool@, version@),
                )),
                k <= n,
                k <= i ==> spec_uninstall(rv, self@, tool@, version@) =~= spec_tools_view(
                    new_tools@,
                ) + spec_uninstall(rv.skip(k as int), self@, tool@, version@),
                k > i ==> spec_uninstall(rv, self@, tool@, version@) =~= spec_tools_view(
                    new_tools@,
                ) + rv.skip(k as int),
            decreases n - k,
        {
            proof {
                assert(rv.skip(k as int)[0] == rv[k as int]);
                assert(rv.skip(k as int).skip(1) =~= rv.skip(k + 1));
            }
            let ghost old_view = spec_tools_view(new_tools@);
            if k == i {
                if vs.len() > 0 {
                    let target: Option<DirPath> = if was_default {
                        Some(self.tool_dir(tool).child_string(&vs[0].version))
                    } else {
                        match &reg.tools[k].default_target {
                            Some(p) => Some(p.duplicate()),
                            None => None,
                        }
                    };
                    let mut nvs: Vec<VersionDir> = Vec::new();
                    let mut q: usize = 0;
                    let w = vs.len();
                    while q < w
                        invariant
                            w == vs.len(),
                            q <= w,
                            nvs@.len() == q,
                            forall|x: int| 0 <= x < q ==> nvs@[x]@ == vs@[x]@,
                        decreases w - q,
                    {
                        nvs.push(vs[q].duplicate());
                        q = q + 1;
                    }
                    let ntd = ToolDir {
                        name: String::from_str(tool),
                        versions: nvs,
                        default_target: target,
                    };
                    proof {
                        assert(ntd@.versions =~= vec_dir_view(vs@));
                    }
                    new_tools.push(ntd);
                    proof {
                        assert(spec_tools_view(new_tools@) =~= old_view.push(
                            new_tools@[new_tools@.len() - 1]@,
                        ));
                    }
                }
                // a removed last version drops the whole tool directory
            } else {
                new_tools.push(reg.tools[k].duplicate());
                proof {
                    assert(spec_tools_view(new_tools@) =~= old_view.push(
                        new_tools@[new_tools@.len() - 1]@,
                    ));
                }
            }
            k = k + 1;
        }
        proof {
            assert(rv.skip(n as int) =~= Seq::<ToolDirView>::empty());
            assert(spec_tools_view(new_tools@) =~= spec_uninstall(rv, self@, tool@, version@));
        }
        reg.tools = new_tools;
        proof {
            if spec_wf(rv) {
                lemma_uninstall_preserves_wf(rv, self@, tool@, version@);
            }
        }
        Ok(
            UninstallReport { was_default, was_current, removed_last, promoted },
        )
    }
}


proof fn lemma_find_not_present(reg: Seq<ToolDirView>, tool: Seq<char>)
    requires
        forall|k: int| 0 <= k < reg.len() ==> (#[trigger] reg[k]).name != tool,
    ensures
        spec_find_tool(reg, tool) is None,
    decreases reg.len(),
{
    if reg.len() > 0 {
        assert(forall|k: int|
            0 <= k < reg.skip(1).len() ==> (#[trigger] reg.skip(1)[k]).name != tool);
        lemma_find_not_present(reg.skip(1), tool);
    }
}

proof fn lemma_wf_skip(reg: Seq<ToolDirView>)
    requires
        spec_wf(reg),
        reg.len() > 0,
    ensures
        spec_wf(reg.skip(1)),
{
    assert forall|i: int, j: int|
        0 <= i < j < reg.skip(1).len() implies reg.skip(1)[i].name != reg.skip(1)[j].name by {
        assert(reg.skip(1)[i] == reg[i + 1]);
        assert(reg.skip(1)[j] == reg[j + 1]);
    }
    assert forall|k: int|
        0 <= k < reg.skip(1).len() implies spec_unique_versions(
        #[trigger] reg.skip(1)[k].versions,
    ) by {
        assert(reg.skip(1)[k] == reg[k + 1]);
    }
}

proof fn lemma_content_push(vs: Seq<VersionDirView>, version: Seq<char>, content_id: u64)
    requires
        !spec_has_version(vs, version),
    ensures
        spec_content_of_versions(vs.push(VersionDirView { version, content_id }), version)
            == Some(content_id),
    decreases vs.len(),
{
    let x = VersionDirView { version, content_id };
    if vs.len() == 0 {
        assert(vs.push(x)[0] == x);
    } else {
        assert(vs[0].version != version);
        assert(!spec_has_version(vs.skip(1), version)) by {
            if spec_has_version(vs.skip(1), version) {
                let q = choose|q: int|
                    0 <= q < vs.skip(1).len() && #[trigger] vs.skip(1)[q].version == version;
                assert(vs[q + 1].version == version);
            }
        }
        lemma_content_push(vs.skip(1), version, content_id);
        assert(vs.push(x).skip(1) =~= vs.skip(1).push(x));
    }
}

/// Immediately after an install the pair is installed, and its directory
/// holds the extracted payload unchanged: the relocation is a rename, so the
/// installed content is the scratch directory's single entry, identically.
pub proof fn lemma_install_creates_pair(
    reg: Seq<ToolDirView>,
    tool: Seq<char>,
    version: Seq<char>,
    content_id: u64,
)
    requires
        !spec_is_installed(reg, tool, version),
    ensures
        spec_is_installed(spec_install(reg, tool, version, content_id), tool, version),
        spec_content_of(spec_install(reg, tool, version, content_id), tool, version) == Some(
            content_id,
        ),
    decreases reg.len(),
{
    let after = spec_install(reg, tool, version, content_id);
    if reg.len() == 0 {
        assert(after[0].versions[0].version == version);
        assert(spec_has_version(after[0].versions, version));
    } else if reg[0].name == tool {
        let vs = reg[0].versions.push(VersionDirView { version, content_id });
        assert(vs[vs.len() - 1].version == version);
        assert(spec_has_version(vs, version));
        assert(!spec_has_version(reg[0].versions, version));
        lemma_content_push(reg[0].versions, version, content_id);
    } else {
        assert(spec_find_tool(reg, tool) == spec_find_tool(reg.skip(1), tool));
        lemma_install_creates_pair(reg.skip(1), tool, version, content_id);
        assert(after.skip(1) =~= spec_install(reg.skip(1), tool, version, content_id));
        assert(spec_find_tool(after, tool) == spec_find_tool(after.skip(1), tool));
    }
}

/// Setting a tool's default replaces exactly that tool's symlink target and
/// touches nothing else.
pub proof fn lemma_set_default_target(
    reg: Seq<ToolDirView>,
    tool: Seq<char>,
    target: Seq<Seq<char>>,
)
    ensures
        match spec_find_tool(reg, tool) {
            Some(td) => spec_find_tool(spec_set_default(reg, tool, target), tool) == Some(
                ToolDirView { name: td.name, versions: td.versions, default_target: Some(target) },
            ),
            None => spec_set_default(reg, tool, target) == reg,
        },
        forall|t2: Seq<char>|
            t2 != tool ==> #[trigger] spec_find_tool(spec_set_default(reg, tool, target), t2)
                == spec_find_tool(reg, t2),
    decreases reg.len(),
{
    let after = spec_set_default(reg, tool, target);
    if reg.len() == 0 {
    } else if reg[0].name == tool {
        assert(after.skip(1) =~= reg.skip(1));
    } else {
        lemma_set_default_target(reg.skip(1), tool, target);
        assert(after.skip(1) =~= spec_set_default(reg.skip(1), tool, target));
        if spec_find_tool(reg, tool) is None {
            assert(after =~= reg);
        }
        assert forall|t2: Seq<char>|
            t2 != tool implies #[trigger] spec_find_tool(after, t2) == spec_find_tool(
            reg,
            t2,
        ) by {
            if t2 != reg[0].name {
                assert(spec_find_tool(after, t2) == spec_find_tool(after.skip(1), t2));
                assert(spec_find_tool(reg, t2) == spec_find_tool(reg.skip(1), t2));
            }
        }
    }
}

/// Making one version the default and then another leaves exactly one
/// default symlink for the tool, pointing at the second version's target;
/// the installed versions are untouched.
pub proof fn lemma_make_default_twice(
    reg: Seq<ToolDirView>,
    tool: Seq<char>,
    first: Seq<Seq<char>>,
    second: Seq<Seq<char>>,
)
    requires
        spec_find_tool(reg, tool) is Some,
    ensures
        spec_default_target_of(
            spec_set_default(spec_set_default(reg, tool, first), tool, second),
            tool,
        ) == Some(second),
        spec_versions_of(
            spec_set_default(spec_set_default(reg, tool, first), tool, second),
            tool,
        ) == spec_versions_of(reg, tool),
{
    lemma_set_default_target(reg, tool, first);
    lemma_set_default_target(spec_set_default(reg, tool, first), tool, second);
}

proof fn lemma_remove_version_props(vs: Seq<VersionDirView>, version: Seq<char>)
    requires
        spec_unique_versions(vs),
        spec_has_version(vs, version),
    ensures
        spec_remove_version(vs, version).len() == vs.len() - 1,
        !spec_has_version(spec_remove_version(vs, version), version),
        forall|w: Seq<char>|
            w != version ==> #[trigger] spec_has_version(spec_remove_version(vs, version), w)
                == spec_has_version(vs, w),
        spec_unique_versions(spec_remove_version(vs, version)),
        spec_remove_version(vs, version).len() > 0 ==> spec_has_version(
            vs,
            spec_remove_version(vs, version)[0].version,
        ),
    decreases vs.len(),
{
    let r = spec_remove_version(vs, version);
    if vs[0].version == version {
        assert(r =~= vs.skip(1));
        assert(!spec_has_version(r, version)) by {
            if spec_has_version(r, version) {
                let q = choose|q: int| 0 <= q < r.len() && #[trigger] r[q].version == version;
                assert(vs[q + 1].version == version);
                assert(vs[0].version == vs[q + 1].version);
            }
        }
        assert forall|w: Seq<char>|
            w != version implies #[trigger] spec_has_version(r, w) == spec_has_version(
            vs,
            w,
        ) by {
            if spec_has_version(vs, w) {
                let q = choose|q: int| 0 <= q < vs.len() && #[trigger] vs[q].version == w;
                assert(q != 0);
                assert(r[q - 1].version == w);
            }
            if spec_has_version(r, w) {
                let q = choose|q: int| 0 <= q < r.len() && #[trigger] r[q].version == w;
                assert(vs[q + 1].version == w);
            }
        }
        assert forall|i: int, j: int|
            0 <= i < j < r.len() implies r[i].version != r[j].version by {
            assert(r[i] == vs[i + 1]);
            assert(r[j] == vs[j + 1]);
        }
        if r.len() > 0 {
            assert(vs[1].version == r[0].version);
        }
    } else {
        assert(spec_has_version(vs.skip(1), version)) by {
            let q = choose|q: int| 0 <= q < vs.len() && #[trigger] vs[q].version == version;
            assert(q != 0);
            assert(vs.skip(1)[q - 1].version == version);
        }
        assert forall|i: int, j: int|
            0 <= i < j < vs.skip(1).len() implies vs.skip(1)[i].version != vs.skip(
            1,
        )[j].version by {
            assert(vs.skip(1)[i] == vs[i + 1]);
            assert(vs.skip(1)[j] == vs[j + 1]);
        }
        lemma_remove_version_props(vs.skip(1), version);
        let rr = spec_remove_version(vs.skip(1), version);
        assert(r =~= seq![vs[0]] + rr);
        assert(r[0] == vs[0]);
        assert(forall|p: int| 0 <= p < rr.len() ==> r[p + 1] == #[trigger] rr[p]);
        assert(!spec_has_version(r, version)) by {
            if spec_has_version(r, version) {
                let q = choose|q: int| 0 <= q < r.len() && #[trigger] r[q].version == version;
                if q == 0 {
                    assert(vs[0].version == version);
                } else {
                    assert(rr[q - 1].version == version);
                    assert(spec_has_version(rr, version));
                }
            }
        }
        assert forall|w: Seq<char>|
            w != version implies #[trigger] spec_has_version(r, w) == spec_has_version(
            vs,
            w,
        ) by {
            if spec_has_version(vs, w) {
                let q = choose|q: int| 0 <= q < vs.len() && #[trigger] vs[q].version == w;
                if q == 0 {
                    assert(r[0].version == w);
                    assert(spec_has_version(r, w));
                } else {
                    assert(vs.skip(1)[q - 1].version == w);
                    assert(spec_has_version(vs.skip(1), w));
                    assert(spec_has_version(rr, w));
                    let p = choose|p: int| 0 <= p < rr.len() && #[trigger] rr[p].version == w;
                    assert(r[p + 1].version == w);
                    assert(spec_has_version(r, w));
                }
            }
            if spec_has_version(r, w) {
                let q = choose|q: int| 0 <= q < r.len() && #[trigger] r[q].version == w;
                if q == 0 {
                    assert(vs[0].version == w);
                    assert(spec_has_version(vs, w));
                } else {
                    assert(rr[q - 1].version == w);
                    assert(spec_has_version(rr, w));
                    assert(spec_has_version(vs.skip(1), w));
                    let p = choose|p: int|
                        0 <= p < vs.skip(1).len() && #[trigger] vs.skip(1)[p].version == w;
                    assert(vs[p + 1].version == w);
                    assert(spec_has_version(vs, w));
                }
            }
        }
        assert forall|i: int, j: int|
            0 <= i < j < r.len() implies r[i].version != r[j].version by {
            if i == 0 {
                assert(r[j] == rr[j - 1]);
                let w = rr[j - 1].version;
                assert(spec_has_version(rr, w));
                assert(w != version);
                assert(spec_has_version(vs.skip(1), w));
                if vs[0].version == w {
                    let p = choose|p: int|
                        0 <= p < vs.skip(1).len() && #[trigger] vs.skip(1)[p].version == w;
                    assert(vs[p + 1].version == w);
                    assert(vs[0].version == vs[p + 1].version);
                }
            } else {
                assert(r[i] == rr[i - 1]);
                assert(r[j] == rr[j - 1]);
            }
        }
        if r.len() > 0 {
            assert(r[0] == vs[0]);
            assert(vs[0].version == r[0].version);
        }
    }
}

/// Uninstalling the last remaining version of a tool removes the tool's
/// directory entirely.
pub proof fn lemma_uninstall_last_removes_tool(
    reg: Seq<ToolDirView>,
    root: Seq<Seq<char>>,
    tool: Seq<char>,
    version: Seq<char>,
)
    requires
        spec_wf(reg),
        spec_find_tool(reg, tool) matches Some(td) && td.versions.len() == 1
            && td.versions[0].version == version,
    ensures
        spec_find_tool(spec_uninstall(reg, root, tool, version), tool) is None,
    decreases reg.len(),
{
    let after = spec_uninstall(reg, root, tool, version);
    if reg[0].name == tool {
        assert(spec_remove_version(reg[0].versions, version) =~= Seq::<VersionDirView>::empty());
        assert(after == reg.skip(1));
        assert forall|k: int|
            0 <= k < reg.skip(1).len() implies (#[trigger] reg.skip(1)[k]).name != tool by {
            assert(reg.skip(1)[k] == reg[k + 1]);
        }
        lemma_find_not_present(reg.skip(1), tool);
    } else {
        lemma_wf_skip(reg);
        assert(spec_find_tool(reg, tool) == spec_find_tool(reg.skip(1), tool));
        lemma_uninstall_last_removes_tool(reg.skip(1), root, tool, version);
        assert(after.skip(1) =~= spec_uninstall(reg.skip(1), root, tool, version));
        assert(spec_find_tool(after, tool) == spec_find_tool(after.skip(1), tool));
    }
}

/// Uninstalling one of several versions keeps the tool's directory; the
/// removed pair is gone, and when it was the default the first remaining
/// sibling is promoted to default; when it was not, the default target is
/// untouched.
pub proof fn lemma_uninstall_promotes_sibling(
    reg: Seq<ToolDirView>,
    root: Seq<Seq<char>>,
    tool: Seq<char>,
    version: Seq<char>,
)
    requires
        spec_wf(reg),
        spec_is_installed(reg, tool, version),
        spec_remove_version(spec_find_tool(reg, tool)->0.versions, version).len() > 0,
    ensures
        ({
            let after = spec_uninstall(reg, root, tool, version);
            let td = spec_find_tool(reg, tool)->0;
            let vs = spec_remove_version(td.versions, version);
            &&& spec_find_tool(after, tool) == Some(
                ToolDirView {
                    name: td.name,
                    versions: vs,
                    default_target: if spec_is_default(reg, root, tool, version) {
                        Some(spec_pair_path(root, tool, vs[0].version))
                    } else {
                        td.default_target
                    },
                },
            )
            &&& !spec_is_installed(after, tool, version)
            &&& spec_is_installed(after, tool, vs[0].version)
            &&& (spec_is_default(reg, root, tool, version) ==> spec_is_default(
                after,
                root,
                tool,
                vs[0].version,
            ))
            &&& (!spec_is_default(reg, root, tool, version) ==> spec_default_target_of(
                after,
                tool,
            ) == td.default_target)
        }),
    decreases reg.len(),
{
    let after = spec_uninstall(reg, root, tool, version);
    let td = spec_find_tool(reg, tool)->0;
    let vs = spec_remove_version(td.versions, version);
    if reg[0].name == tool {
        assert(td == reg[0]);
        lemma_remove_version_props(td.versions, version);
        assert(spec_find_tool(after, tool) == Some(after[0]));
        assert(vs[0].version == vs[0].version);
        assert(spec_has_version(vs, vs[0].version));
    } else {
        lemma_wf_skip(reg);
        assert(spec_find_tool(reg, tool) == spec_find_tool(reg.skip(1), tool));
        lemma_uninstall_promotes_sibling(reg.skip(1), root, tool, version);
        assert(after.skip(1) =~= spec_uninstall(reg.skip(1), root, tool, version));
        assert(spec_find_tool(after, tool) == spec_find_tool(after.skip(1), tool));
        assert(spec_default_target_of(reg, tool) == spec_default_target_of(reg.skip(1), tool));
    }
}


proof fn lemma_remove_has_subset(vs: Seq<VersionDirView>, version: Seq<char>)
    ensures
        forall|w: Seq<char>|
            #[trigger] spec_has_version(spec_remove_version(vs, version), w) ==> spec_has_version(
                vs,
                w,
            ),
    decreases vs.len(),
{
    if vs.len() > 0 {
        lemma_remove_has_subset(vs.skip(1), version);
        let r = spec_remove_version(vs, version);
        assert forall|w: Seq<char>|
            #[trigger] spec_has_version(r, w) implies spec_has_version(vs, w) by {
            let q = choose|q: int| 0 <= q < r.len() && #[trigger] r[q].version == w;
            if vs[0].version == version {
                assert(r =~= vs.skip(1));
                assert(vs[q + 1].version == w);
            } else {
                assert(r =~= seq![vs[0]] + spec_remove_version(vs.skip(1), version));
                if q == 0 {
                    assert(vs[0].version == w);
                } else {
                    assert(spec_remove_version(vs.skip(1), version)[q - 1].version == w);
                    assert(spec_has_version(spec_remove_version(vs.skip(1), version), w));
                    assert(spec_has_version(vs.skip(1), w));
                    let p = choose|p: int|
                        0 <= p < vs.skip(1).len() && #[trigger] vs.skip(1)[p].version == w;
                    assert(vs[p + 1].version == w);
                }
            }
        }
    }
}

proof fn lemma_remove_keeps_unique(vs: Seq<VersionDirView>, version: Seq<char>)
    requires
        spec_unique_versions(vs),
    ensures
        spec_unique_versions(spec_remove_version(vs, version)),
    decreases vs.len(),
{
    if vs.len() > 0 {
        let r = spec_remove_version(vs, version);
        assert forall|i: int, j: int|
            0 <= i < j < vs.skip(1).len() implies vs.skip(1)[i].version != vs.skip(
            1,
        )[j].version by {
            assert(vs.skip(1)[i] == vs[i + 1]);
            assert(vs.skip(1)[j] == vs[j + 1]);
        }
        lemma_remove_keeps_unique(vs.skip(1), version);
        if vs[0].version == version {
            assert(r =~= vs.skip(1));
        } else {
            let rr = spec_remove_version(vs.skip(1), version);
            assert(r =~= seq![vs[0]] + rr);
            lemma_remove_has_subset(vs.skip(1), version);
            assert forall|i: int, j: int|
                0 <= i < j < r.len() implies r[i].version != r[j].version by {
                if i == 0 {
                    assert(r[j] == rr[j - 1]);
                    let w = rr[j - 1].version;
                    assert(spec_has_version(rr, w));
                    assert(spec_has_version(vs.skip(1), w));
                    if vs[0].version == w {
                        let p = choose|p: int|
                            0 <= p < vs.skip(1).len() && #[trigger] vs.skip(1)[p].version == w;
                        assert(vs[p + 1].version == vs[0].version);
                    }
                } else {
                    assert(r[i] == rr[i - 1]);
                    assert(r[j] == rr[j - 1]);
                }
            }
        }
    }
}

/// Installing a fresh pair keeps the tree well-formed, and changes no tool
/// directory's name: at most it appends one directory for a new tool.
pub proof fn lemma_install_preserves_wf(
    reg: Seq<ToolDirView>,
    tool: Seq<char>,
    version: Seq<char>,
    content_id: u64,
)
    requires
        spec_wf(reg),
        !spec_is_installed(reg, tool, version),
    ensures
        spec_wf(spec_install(reg, tool, version, content_id)),
        spec_find_tool(reg, tool) is Some ==> ({
            let after = spec_install(reg, tool, version, content_id);
            after.len() == reg.len() && forall|k: int|
                0 <= k < reg.len() ==> (#[trigger] after[k]).name == reg[k].name
        }),
        spec_find_tool(reg, tool) is None ==> ({
            let after = spec_install(reg, tool, version, content_id);
            after.len() == reg.len() + 1 && after[reg.len() as int].name == tool && forall|k: int|
                0 <= k < reg.len() ==> (#[trigger] after[k]).name == reg[k].name
        }),
    decreases reg.len(),
{
    let after = spec_install(reg, tool, version, content_id);
    if reg.len() == 0 {
        assert(after[0].versions =~= seq![VersionDirView { version, content_id }]);
        assert(spec_unique_versions(after[0].versions));
    } else if reg[0].name == tool {
        let vs = reg[0].versions.push(VersionDirView { version, content_id });
        assert(!spec_has_version(reg[0].versions, version));
        assert forall|i: int, j: int|
            0 <= i < j < vs.len() implies vs[i].version != vs[j].version by {
            if j == vs.len() - 1 {
                assert(vs[i] == reg[0].versions[i]);
                if reg[0].versions[i].version == version {
                    assert(spec_has_version(reg[0].versions, version));
                }
            } else {
                assert(vs[i] == reg[0].versions[i]);
                assert(vs[j] == reg[0].versions[j]);
            }
        }
        assert forall|k: int|
            0 <= k < after.len() implies spec_unique_versions(#[trigger] after[k].versions) by {
            if k > 0 {
                assert(after[k] == reg[k]);
            }
        }
        assert forall|i: int, j: int|
            0 <= i < j < after.len() implies after[i].name != after[j].name by {
            assert(after[i].name == reg[i].name);
            assert(after[j].name == reg[j].name);
        }
        assert forall|k: int|
            0 <= k < reg.len() implies (#[trigger] after[k]).name == reg[k].name by {
            if k > 0 {
                assert(after[k] == reg[k]);
            }
        }
    } else {
        lemma_wf_skip(reg);
        assert(spec_find_tool(reg, tool) == spec_find_tool(reg.skip(1), tool));
        lemma_install_preserves_wf(reg.skip(1), tool, version, content_id);
        let tail = spec_install(reg.skip(1), tool, version, content_id);
        assert(after =~= seq![reg[0]] + tail);
        assert forall|k: int|
            1 <= k < after.len() implies (#[trigger] after[k]) == tail[k - 1] by {}
        assert forall|i: int, j: int|
            0 <= i < j < after.len() implies after[i].name != after[j].name by {
            if i == 0 {
                let w = after[j].name;
                if j - 1 < reg.skip(1).len() {
                    assert(tail[j - 1].name == reg.skip(1)[j - 1].name);
                    assert(reg.skip(1)[j - 1] == reg[j]);
                } else {
                    assert(w == tool);
                }
            } else {
                assert(after[i] == tail[i - 1]);
                assert(after[j] == tail[j - 1]);
            }
        }
        assert forall|k: int|
            0 <= k < after.len() implies spec_unique_versions(#[trigger] after[k].versions) by {
            if k > 0 {
                assert(after[k] == tail[k - 1]);
            }
        }
        assert forall|k: int|
            0 <= k < reg.len() implies (#[trigger] after[k]).name == reg[k].name by {
            if k > 0 {
                assert(after[k] == tail[k - 1]);
                assert(tail[k - 1].name == reg.skip(1)[k - 1].name);
            }
        }
    }
}

/// Replacing a default symlink keeps the tree well-formed: no name and no
/// version list changes.
pub proof fn lemma_set_default_preserves_wf(
    reg: Seq<ToolDirView>,
    tool: Seq<char>,
    target: Seq<Seq<char>>,
)
    ensures
        spec_set_default(reg, tool, target).len() == reg.len(),
        forall|k: int|
            0 <= k < reg.len() ==> (#[trigger] spec_set_default(reg, tool, target)[k]).name
                == reg[k].name && spec_set_default(reg, tool, target)[k].versions
                == reg[k].versions,
        spec_wf(reg) ==> spec_wf(spec_set_default(reg, tool, target)),
    decreases reg.len(),
{
    let after = spec_set_default(reg, tool, target);
    if reg.len() == 0 {
    } else {
        lemma_set_default_preserves_wf(reg.skip(1), tool, target);
        if reg[0].name == tool {
            assert(after.skip(1) =~= reg.skip(1));
            assert forall|k: int|
                0 <= k < reg.len() implies (#[trigger] after[k]).name == reg[k].name
                && after[k].versions == reg[k].versions by {
                if k > 0 {
                    assert(after[k] == reg[k]);
                }
            }
        } else {
            let tail = spec_set_default(reg.skip(1), tool, target);
            assert(after =~= seq![reg[0]] + tail);
            assert forall|k: int|
                0 <= k < reg.len() implies (#[trigger] after[k]).name == reg[k].name
                && after[k].versions == reg[k].versions by {
                if k > 0 {
                    assert(after[k] == tail[k - 1]);
                    assert(tail[k - 1].name == reg.skip(1)[k - 1].name);
                    assert(tail[k - 1].versions == reg.skip(1)[k - 1].versions);
                }
            }
        }
        if spec_wf(reg) {
            assert forall|i: int, j: int|
                0 <= i < j < after.len() implies after[i].name != after[j].name by {
                assert(after[i].name == reg[i].name);
                assert(after[j].name == reg[j].name);
            }
            assert forall|k: int|
                0 <= k < after.len() implies spec_unique_versions(
                #[trigger] after[k].versions,
            ) by {
                assert(after[k].versions == reg[k].versions);
            }
        }
    }
}

/// Uninstalling keeps the tree well-formed: a tool directory goes, or its
/// version list loses one entry.
pub proof fn lemma_uninstall_preserves_wf(
    reg: Seq<ToolDirView>,
    root: Seq<Seq<char>>,
    tool: Seq<char>,
    version: Seq<char>,
)
    requires
        spec_wf(reg),
    ensures
        spec_wf(spec_uninstall(reg, root, tool, version)),
    decreases reg.len(),
{
    let after = spec_uninstall(reg, root, tool, version);
    if reg.len() == 0 {
    } else if reg[0].name == tool {
        let vs = spec_remove_version(reg[0].versions, version);
        lemma_wf_skip(reg);
        if vs.len() == 0 {
        } else {
            lemma_remove_keeps_unique(reg[0].versions, version);
            assert forall|i: int, j: int|
                0 <= i < j < after.len() implies after[i].name != after[j].name by {
                assert(after[i].name == reg[i].name);
                assert(after[j].name == reg[j].name);
            }
            assert forall|k: int|
                0 <= k < after.len() implies spec_unique_versions(
                #[trigger] after[k].versions,
            ) by {
                if k > 0 {
                    assert(after[k] == reg[k]);
                }
            }
        }
    } else {
        lemma_wf_skip(reg);
        lemma_uninstall_preserves_wf(reg.skip(1), root, tool, version);
        let tail = spec_uninstall(reg.skip(1), root, tool, version);
        assert(after =~= seq![reg[0]] + tail);
        assert forall|k: int|
            1 <= k < after.len() implies (#[trigger] after[k]) == tail[k - 1] by {}
        lemma_uninstall_names(reg.skip(1), root, tool, version);
        assert forall|i: int, j: int|
            0 <= i < j < after.len() implies after[i].name != after[j].name by {
            if i == 0 {
                let q = choose|q: int|
                    0 <= q < reg.skip(1).len() && #[trigger] reg.skip(1)[q].name == tail[j
                        - 1].name;
                assert(reg[q + 1].name == tail[j - 1].name);
            } else {
                assert(after[i] == tail[i - 1]);
                assert(after[j] == tail[j - 1]);
            }
        }
        assert forall|k: int|
            0 <= k < after.len() implies spec_unique_versions(#[trigger] after[k].versions) by {
            if k > 0 {
                assert(after[k] == tail[k - 1]);
            }
        }
    }
}

/// Every tool directory that an uninstall leaves carries a name that stood
/// in the tree before.
proof fn lemma_uninstall_names(
    reg: Seq<ToolDirView>,
    root: Seq<Seq<char>>,
    tool: Seq<char>,
    version: Seq<char>,
)
    ensures
        forall|k: int|
            0 <= k < spec_uninstall(reg, root, tool, version).len() ==> exists|q: int|
                0 <= q < reg.len() && (#[trigger] reg[q]).name == (#[trigger] spec_uninstall(
                    reg,
                    root,
                    tool,
                    version,
                )[k]).name,
    decreases reg.len(),
{
    let after = spec_uninstall(reg, root, tool, version);
    if reg.len() == 0 {
    } else if reg[0].name == tool {
        let vs = spec_remove_version(reg[0].versions, version);
        if vs.len() == 0 {
            assert forall|k: int|
                0 <= k < after.len() implies exists|q: int|
                    0 <= q < reg.len() && (#[trigger] reg[q]).name == (#[trigger] after[k]).name by {
                assert(after[k] == reg[k + 1]);
                assert(reg[k + 1].name == after[k].name);
            }
        } else {
            assert forall|k: int|
                0 <= k < after.len() implies exists|q: int|
                    0 <= q < reg.len() && (#[trigger] reg[q]).name == (#[trigger] after[k]).name by {
                if k == 0 {
                    assert(reg[0].name == after[0].name);
                } else {
                    assert(after[k] == reg[k]);
                    assert(reg[k].name == after[k].name);
                }
            }
        }
    } else {
        lemma_uninstall_names(reg.skip(1), root, tool, version);
        let tail = spec_uninstall(reg.skip(1), root, tool, version);
        assert(after =~= seq![reg[0]] + tail);
        assert forall|k: int|
            0 <= k < after.len() implies exists|q: int|
                0 <= q < reg.len() && (#[trigger] reg[q]).name == (#[trigger] after[k]).name by {
            if k == 0 {
                assert(reg[0].name == after[0].name);
            } else {
                assert(after[k] == tail[k - 1]);
                let q = choose|q: int|
                    0 <= q < reg.skip(1).len() && (#[trigger] reg.skip(1)[q]).name == tail[k
                        - 1].name;
                assert(reg[q + 1].name == after[k].name);
            }
        }
    }
}

} // verus!



