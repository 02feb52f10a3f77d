//! Mounting where there is no kernel support for it.

use vstd::prelude::*;
use vstd::string::*;

verus! {

/// Arguments of the mount command.
#[derive(Debug, Clone)]
pub struct MountArgs {
    /// The name or the path of the agent.
    pub id_or_path: String,
    /// Where to mount.
    pub mountpoint: String,
    /// Unmount when the process ends.
    pub auto_unmount: bool,
    /// Let root use the file system.
    pub allow_root: bool,
    /// Stay in the foreground.
    pub foreground: bool,
}

/// Says that mounting is not possible.
pub fn mount(args: MountArgs) -> (r: Result<(), String>)
    ensures
        r matches Err(m) && m@ == "FUSE mount is only available on Linux"@,
{
    Err("FUSE mount is only available on Linux".to_owned())
}

} // verus!
