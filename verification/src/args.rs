//! The command-line surface as plain data.  Argument parsing lives in the
//! unverified shell, which converts its own clap-derived types into these;
//! the configuration is passed explicitly to whoever needs it, never read
//! from a process-wide singleton.

use vstd::prelude::*;
use crate::cache::clone_opt;

verus! {

#[allow(inconsistent_fields)]
pub enum Command {
    Init,
    Install { tool: String, version: Option<String>, default: bool },
    Uninstall { tool: String, version: String },
    Remove { tool: String, version: String },
    Current { tool: Option<String> },
    Env { command: Option<EnvSubcommand> },
    List { tool: Option<String> },
    Installed { tool: Option<String> },
    Default { tool: Option<String>, version: Option<String> },
    Use { tool: String, version: Option<String> },
    Flush {},
    Tui,
}

pub enum EnvSubcommand {
    Init,
    Install,
    Clear,
}

pub struct Cli {
    pub command: Option<Command>,
    pub debug: bool,
    pub shell: Option<String>,
    pub envout: Option<String>,
    pub insecure: bool,
}

pub fn debug(cli: &Cli) -> (r: bool)
    ensures
        r == cli.debug,
{
    cli.debug
}

pub fn insecure(cli: &Cli) -> (r: bool)
    ensures
        r == cli.insecure,
{
    cli.insecure
}

pub fn shell(cli: &Cli) -> (r: Option<String>)
    ensures
        r == cli.shell,
{
    clone_opt(&cli.shell)
}

pub fn envout(cli: &Cli) -> (r: Option<String>)
    ensures
        r == cli.envout,
{
    clone_opt(&cli.envout)
}

} // verus!
