//! Running a command where there is no sandbox for it.

use crate::text;
use vstd::prelude::*;
use vstd::string::*;

verus! {

/// What is mounted in a sandbox.
#[derive(Debug, Clone)]
pub enum MountType {
    Bind { src: String },
    Sqlite { src: String },
}

/// What is mounted in a sandbox, and where.
#[derive(Debug, Clone)]
pub struct MountConfig {
    pub mount_type: MountType,
    pub dst: String,
}

impl MountConfig {
    /// Reads a configuration. There is none to be had.
    pub fn parse(s: &str) -> (r: Result<Self, String>)
        ensures
            r matches Err(m) && m@ == "Mount configuration is only supported on Linux"@,
    {
        Err("Mount configuration is only supported on Linux".to_owned())
    }
}

impl std::str::FromStr for MountConfig {
    type Err = String;

    fn from_str(s: &str) -> (r: Result<Self, String>)
    {
        MountConfig::parse(s)
    }
}

/// The lines that are printed in place of running a command.
pub open spec fn notice() -> Seq<Seq<char>> {
    seq![
        "Error: Sandbox is available only on Linux."@,
        ""@,
        "The 'run' command uses ptrace-based system call interception,"@,
        "which is only supported on Linux."@,
        ""@,
        "However, you can still use the other AgentFS commands:"@,
        "  - 'agentfs init' to create a new agent filesystem"@,
        "  - 'agentfs fs ls' to list files"@,
        "  - 'agentfs fs cat' to view file contents"@,
    ]
}

/// The lines that are printed in place of running a command, and the exit code.
pub fn run_sandbox() -> (r: (Vec<String>, i32))
    ensures
        text::views(r.0@) == notice(),
        r.1 == 1,
{
    let mut out: Vec<String> = Vec::new();
    out.push("Error: Sandbox is available only on Linux.".to_owned());
    out.push("".to_owned());
    out.push("The 'run' command uses ptrace-based system call interception,".to_owned());
    out.push("which is only supported on Linux.".to_owned());
    out.push("".to_owned());
    out.push("However, you can still use the other AgentFS commands:".to_owned());
    out.push("  - 'agentfs init' to create a new agent filesystem".to_owned());
    out.push("  - 'agentfs fs ls' to list files".to_owned());
    out.push("  - 'agentfs fs cat' to view file contents".to_owned());
    assert(text::views(out@) =~= notice());
    (out, 1)
}

} // verus!
