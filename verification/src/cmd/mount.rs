//! Mounting a file system.

use crate::fs::store::{Cell, CellView};
use crate::fuse::adapter::FuseMountOptions;
use crate::options;
use crate::options::{AgentFSOptions, ResolveError};
use crate::text;
use vstd::prelude::*;
use vstd::string::*;

verus! {

/// How long a mount may take to be ready, in milliseconds.
pub const READY_TIMEOUT_MS: u64 = 10000;

/// Arguments of the mount command.
#[derive(Debug, Clone)]
pub struct MountArgs {
    /// The name or the path of the agent.
    pub id_or_path: String,
    /// Where to mount.
    pub mountpoint: String,
    /// Unmount when the process ends.
    pub auto_unmount: bool,
    /// Let root use the file system.
    pub allow_root: bool,
    /// Stay in the foreground.
    pub foreground: bool,
    /// The owner of all files, by default the current user.
    pub uid: Option<u32>,
    /// The group of all files, by default that of the current user.
    pub gid: Option<u32>,
}

/// Where the program runs.
#[derive(Debug, Clone, Copy, PartialEq, Eq, Structural)]
pub enum Platform {
    Linux,
    MacOs,
}

/// What a mount comes to: what is mounted, and how.
#[derive(Debug)]
pub struct Mounting {
    /// The agent.
    pub options: AgentFSOptions,
    /// What the kernel is asked for.
    pub fuse: FuseMountOptions,
    /// How long the mount may take to be ready in the background, in milliseconds;
    /// in the foreground there is nothing to wait for.
    pub wait_ms: Option<u64>,
}

/// The name that is shown for the file system: the resolved path, if there is
/// one, else what was asked for.
pub open spec fn shown_name(asked: Seq<char>, canonical: Option<Seq<char>>) -> Seq<char> {
    match canonical {
        Some(p) => p,
        None => asked,
    }
}

/// Why nothing is mounted, if nothing is. macOS comes first, then an agent that
/// cannot be found, then a mountpoint that is not there.
pub open spec fn mount_refusal(
    platform: Platform,
    resolved: Result<options::OptionsView, options::ResolveErrorView>,
    mountpoint: Seq<char>,
    mountpoint_exists: bool,
) -> Option<Seq<char>> {
    if platform == Platform::MacOs {
        Some(
            "FUSE mounting is not supported on macOS in this version.\nUse `agentfs nfs` to mount via NFS instead."@,
        )
    } else {
        match resolved {
            Err(e) => Some(options::resolve_message(e)),
            Ok(_) => if mountpoint_exists {
                None
            } else {
                Some("Mountpoint does not exist: "@ + mountpoint)
            },
        }
    }
}

/// What there is to mount on this platform, and how, given what the name stands
/// for, the resolved path and whether the mountpoint is there.
pub fn mount(
    args: MountArgs,
    platform: Platform,
    resolved: Result<AgentFSOptions, ResolveError>,
    canonical: Option<String>,
    mountpoint_exists: bool,
) -> (r: Result<Mounting, String>)
    ensures
        match mount_refusal(
            platform,
            options::resolved(resolved),
            args.mountpoint@,
            mountpoint_exists,
        ) {
            Some(e) => r matches Err(m) && m@ == e,
            None => r matches Ok(m) && Ok::<options::OptionsView, options::ResolveErrorView>(
                m.options@,
            ) == options::resolved(resolved) && m.fuse.mountpoint@ == args.mountpoint@
                && m.fuse.auto_unmount == args.auto_unmount && m.fuse.allow_root == args.allow_root
                && m.fuse.fsname@ == shown_name(args.id_or_path@, text::opt(canonical))
                && m.fuse.uid == args.uid && m.fuse.gid == args.gid && m.wait_ms == if args.foreground {
                None
            } else {
                Some(READY_TIMEOUT_MS)
            },
        },
{
    if platform == Platform::MacOs {
        return Err(
            "FUSE mounting is not supported on macOS in this version.\nUse `agentfs nfs` to mount via NFS instead.".to_owned(),
        );
    }
    let options = match resolved {
        Err(e) => {
            return Err(e.to_string());
        },
        Ok(o) => o,
    };
    if !mountpoint_exists {
        return Err(text::concat("Mountpoint does not exist: ", args.mountpoint.as_str()));
    }
    let fsname = match canonical {
        Some(p) => p,
        None => args.id_or_path,
    };
    let fuse = FuseMountOptions {
        mountpoint: args.mountpoint,
        auto_unmount: args.auto_unmount,
        allow_root: args.allow_root,
        fsname,
        uid: args.uid,
        gid: args.gid,
    };
    let wait_ms: Option<u64> = if args.foreground {
        None
    } else {
        Some(READY_TIMEOUT_MS)
    };
    Ok(Mounting { options, fuse, wait_ms })
}

/// The base of an overlay, as the configuration holds it: only text counts.
pub fn overlay_base(value: Option<&Cell<String, Vec<u8>>>) -> (r: Option<String>)
    ensures
        text::opt(r) == match value {
            Some(c) => match c@ {
                CellView::Text(s) => Some(s),
                _ => None,
            },
            None => None,
        },
{
    match value {
        Some(Cell::Text(s)) => Some(s.clone()),
        _ => None,
    }
}

/// The directory above a mountpoint: the one that its path names, else the root.
pub fn directory_above(named: Option<String>) -> (r: String)
    ensures
        r@ == match named {
            Some(p) if p@.len() > 0 => p@,
            _ => "/"@,
        },
{
    match named {
        Some(p) => {
            if p.as_str().is_empty() {
                "/".to_owned()
            } else {
                p
            }
        },
        None => "/".to_owned(),
    }
}

/// Whether a directory is a mountpoint, given the devices that it and the
/// directory above it lie on, where they can be found: it is one if they differ.
pub fn is_mounted(device: Option<u64>, parent_device: Option<u64>) -> (r: bool)
    ensures
        r == (device is Some && parent_device is Some && device != parent_device),
{
    match device {
        Some(a) => match parent_device {
            Some(b) => a != b,
            None => false,
        },
        None => false,
    }
}

} // verus!
