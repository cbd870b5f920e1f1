//! Shell-activation logic.  The core only computes environment assignments
//! as `(name, value)` pairs and renders them in the invoking shell's
//! syntax; appending them to the environment-output sink, and reading the
//! process environment, are the unverified shell's work — a running process
//! cannot mutate its parent shell's environment.

use vstd::prelude::*;
use vstd::string::*;
use crate::path::DirPath;
use crate::text;
use crate::text::{spec_join, spec_split};
use crate::tool_version::{ToolVersion, spec_version_path, spec_home_env};

verus! {

/// One environment mutation for the invoking shell to apply.
pub struct EnvAssignment {
    pub name: String,
    pub value: String,
}

/// The statement that sets an environment variable in the given shell's
/// syntax, or nothing for a shell this manager does not know.
pub open spec fn spec_render_set_env(shell: Seq<char>, name: Seq<char>, value: Seq<char>) -> Option<
    Seq<char>,
> {
    if shell == "powershell"@ {
        Some("$env:"@ + name + " = '"@ + value + "'"@)
    } else if shell == "bash"@ || shell == "zsh"@ || shell == "sh"@ {
        Some("export "@ + name + "=\""@ + value + "\""@)
    } else if shell == "fish"@ {
        Some("set -gx "@ + name + " '"@ + value + "'"@)
    } else {
        None
    }
}

/// Renders one environment assignment for a shell.
pub fn render_set_env(shell: &str, name: &str, value: &str) -> (r: Option<String>)
    ensures
        r.deep_view() == spec_render_set_env(shell@, name@, value@),
{
    if text::str_eq(shell, "powershell") {
        let mut s = String::from_str("$env:");
        s.append(name);
        s.append(" = '");
        s.append(value);
        s.append("'");
        Some(s)
    } else if text::str_eq(shell, "bash") || text::str_eq(shell, "zsh") || text::str_eq(
        shell,
        "sh",
    ) {
        let mut s = String::from_str("export ");
        s.append(name);
        s.append("=\"");
        s.append(value);
        s.append("\"");
        Some(s)
    } else if text::str_eq(shell, "fish") {
        let mut s = String::from_str("set -gx ");
        s.append(name);
        s.append(" '");
        s.append(value);
        s.append("'");
        Some(s)
    } else {
        None
    }
}

/// The ghost shape of a path list.
pub open spec fn spec_paths_view(s: Seq<DirPath>) -> Seq<Seq<Seq<char>>> {
    Seq::new(s.len(), |i: int| s[i]@)
}

/// The entries of the old `PATH` that survive an activation: everything not
/// under the tool's own installation directory.
pub open spec fn spec_retained(entries: Seq<Seq<Seq<char>>>, tool_root: Seq<Seq<char>>) -> Seq<
    Seq<Seq<char>>,
>
    decreases entries.len(),
{
    if entries.len() == 0 {
        entries
    } else if tool_root.is_prefix_of(entries[0]) {
        spec_retained(entries.skip(1), tool_root)
    } else {
        seq![entries[0]] + spec_retained(entries.skip(1), tool_root)
    }
}

/// The new `PATH` entry list for activating a version: its `bin` directory
/// first, then every prior entry that does not fall under the tool's own
/// installation directory, in their old order — so at most one version of a
/// tool is ever reachable through `PATH`.
pub fn make_current_path_entries(
    bin: &DirPath,
    existing: &Vec<DirPath>,
    tool_root: &DirPath,
) -> (r: Vec<DirPath>)
    ensures
        spec_paths_view(r@) == seq![bin@] + spec_retained(spec_paths_view(existing@), tool_root@),
{
    let mut r: Vec<DirPath> = Vec::new();
    r.push(bin.duplicate());
    let ghost ev = spec_paths_view(existing@);
    proof {
        assert(ev.skip(0) =~= ev);
        assert(spec_paths_view(r@) =~= seq![bin@]);
    }
    let n = existing.len();
    let mut k: usize = 0;
    while k < n
        invariant
            n == existing.len(),
            ev == spec_paths_view(existing@),
            ev.len() == n,
            k <= n,
            seq![bin@] + spec_retained(ev, tool_root@) =~= spec_paths_view(r@) + spec_retained(
                ev.skip(k as int),
                tool_root@,
            ),
        decreases n - k,
    {
        proof {
            assert(ev.skip(k as int)[0] == ev[k as int]);
            assert(ev.skip(k as int).skip(1) =~= ev.skip(k + 1));
        }
        let ghost old_view = spec_paths_view(r@);
        if !existing[k].starts_with(tool_root) {
            r.push(existing[k].duplicate());
            proof {
                assert(spec_paths_view(r@) =~= old_view.push(ev[k as int]));
            }
        }
        k = k + 1;
    }
    proof {
        assert(ev.skip(n as int) =~= Seq::<Seq<Seq<char>>>::empty());
        assert(seq![bin@] + spec_retained(ev, tool_root@) =~= spec_paths_view(r@));
    }
    r
}

/// Renders a `PATH` value: each entry joined with `/`, entries joined with
/// `:`.
pub open spec fn spec_render_path_list(entries: Seq<Seq<Seq<char>>>) -> Seq<char> {
    spec_join(Seq::new(entries.len(), |i: int| spec_join(entries[i], '/')), ':')
}

pub fn render_path_list(entries: &Vec<DirPath>) -> (r: String)
    ensures
        r@ == spec_render_path_list(spec_paths_view(entries@)),
{
    let mut rendered: Vec<String> = Vec::new();
    let n = entries.len();
    let mut k: usize = 0;
    while k < n
        invariant
            n == entries.len(),
            k <= n,
            rendered@.len() == k,
            forall|i: int|
                0 <= i < k ==> rendered.deep_view()[i] == spec_join(
                    #[trigger] entries@[i]@,
                    '/',
                ),
        decreases n - k,
    {
        rendered.push(entries[k].render());
        k = k + 1;
    }
    let r = text::join_text(&rendered, ':');
    proof {
        assert(rendered.deep_view() =~~= Seq::new(
            spec_paths_view(entries@).len(),
            |i: int| spec_join(spec_paths_view(entries@)[i], '/'),
        ));
    }
    r
}

/// The two environment assignments that activate a version in the invoking
/// shell: the new `PATH`, and the tool's home variable set to the version's
/// directory.
pub fn make_current_assignments(tv: &ToolVersion, path_entries: &Vec<DirPath>) -> (r: Vec<
    EnvAssignment,
>)
    ensures
        r@.len() == 2,
        r@[0].name@ == "PATH"@,
        r@[0].value@ == spec_render_path_list(
            seq![spec_version_path(tv@).push("bin"@)] + spec_retained(
                spec_paths_view(path_entries@),
                tv@.root.push("tools"@).push(tv@.tool),
            ),
        ),
        r@[1].name@ == spec_home_env(tv@.tool),
        r@[1].value@ == spec_join(spec_version_path(tv@), '/'),
{
    let bin = tv.bin();
    let tool_root = tv.rsdk.tool_dir(tv.tool.as_str());
    let new_entries = make_current_path_entries(&bin, path_entries, &tool_root);
    let path_value = render_path_list(&new_entries);
    let home_value = tv.path().render();
    let mut r: Vec<EnvAssignment> = Vec::new();
    r.push(EnvAssignment { name: String::from_str("PATH"), value: path_value });
    r.push(EnvAssignment { name: tv.home(), value: home_value });
    r
}

/// The version named by a tool's home-variable value: the last non-empty
/// path component, if any.
pub open spec fn spec_last_nonempty(parts: Seq<Seq<char>>) -> Option<Seq<char>>
    decreases parts.len(),
{
    if parts.len() == 0 {
        None
    } else if parts.last().len() > 0 {
        Some(parts.last())
    } else {
        spec_last_nonempty(parts.drop_last())
    }
}

pub fn version_from_home_path(value: &str) -> (r: Option<String>)
    ensures
        r.deep_view() == spec_last_nonempty(spec_split(value@, '/')),
{
    let parts = text::split_char(value, '/');
    let ghost pd = parts.deep_view();
    proof {
        assert(pd.take(pd.len() as int) =~~= pd);
    }
    let mut k: usize = parts.len();
    while k > 0
        invariant
            pd == parts.deep_view(),
            pd == spec_split(value@, '/'),
            pd.len() == parts.len(),
            k <= parts.len(),
            spec_last_nonempty(pd) == spec_last_nonempty(pd.take(k as int)),
        decreases k,
    {
        let piece = &parts[k - 1];
        if piece.as_str().unicode_len() > 0 {
            proof {
                assert(pd.take(k as int).last() == pd[k - 1]);
            }
            return Some(piece.clone());
        }
        proof {
            assert(pd.take(k as int).last() == pd[k - 1]);
            assert(pd.take(k as int).drop_last() =~~= pd.take(k - 1));
        }
        k = k - 1;
    }
    proof {
        assert(pd.take(0) =~~= Seq::<Seq<char>>::empty());
    }
    None
}

} // verus!
