//! Status codes and attributes of the network file system.

use crate::fs::types;
use crate::fs::types::FsError;
use crate::nodes::{NodeStats, SdkError};
use vstd::prelude::*;

verus! {

/// The status codes that the adapter gives.
#[derive(Debug, Clone, Copy, PartialEq, Eq, Structural)]
pub enum NfsStat {
    NoEntry,
    Io,
    Access,
    Exists,
    NotDirectory,
    IsDirectory,
    Invalid,
    NameTooLong,
    NotEmpty,
    BadType,
    Jukebox,
}

/// The status code for a failure. Where connections have run out, the client is
/// told to try again later.
pub open spec fn status_of(e: SdkError) -> NfsStat {
    match e {
        SdkError::Fs(FsError::NotFound) => NfsStat::NoEntry,
        SdkError::Fs(FsError::AlreadyExists) => NfsStat::Exists,
        SdkError::Fs(FsError::NotEmpty) => NfsStat::NotEmpty,
        SdkError::Fs(FsError::NotADirectory) => NfsStat::NotDirectory,
        SdkError::Fs(FsError::IsADirectory) => NfsStat::IsDirectory,
        SdkError::Fs(FsError::NameTooLong) => NfsStat::NameTooLong,
        SdkError::Fs(FsError::RootOperation) => NfsStat::Access,
        SdkError::ConnectionPoolTimeout => NfsStat::Jukebox,
        _ => NfsStat::Io,
    }
}

/// The status code for a failure.
pub fn error_to_nfsstat(e: SdkError) -> (r: NfsStat)
    ensures
        r == status_of(e),
{
    match e {
        SdkError::Fs(fs) => match fs {
            FsError::NotFound => NfsStat::NoEntry,
            FsError::AlreadyExists => NfsStat::Exists,
            FsError::NotEmpty => NfsStat::NotEmpty,
            FsError::NotADirectory => NfsStat::NotDirectory,
            FsError::IsADirectory => NfsStat::IsDirectory,
            FsError::NameTooLong => NfsStat::NameTooLong,
            FsError::RootOperation => NfsStat::Access,
            _ => NfsStat::Io,
        },
        SdkError::ConnectionPoolTimeout => NfsStat::Jukebox,
        _ => NfsStat::Io,
    }
}

/// The type of a file, as the client is told.
#[derive(Debug, Clone, Copy, PartialEq, Eq, Structural)]
pub enum FileKind {
    Regular,
    Directory,
    Block,
    Character,
    Link,
    Socket,
    Fifo,
}

/// A point in time, in seconds and nanoseconds.
#[derive(Debug, Clone, Copy, PartialEq, Eq, Structural)]
pub struct NfsTime {
    pub seconds: u32,
    pub nseconds: u32,
}

/// The number of a device, in two parts.
#[derive(Debug, Clone, Copy, PartialEq, Eq, Structural)]
pub struct Device {
    pub major: u32,
    pub minor: u32,
}

/// The attributes of a file, as the client is told.
#[derive(Debug, Clone, Copy, PartialEq, Eq, Structural)]
pub struct Fattr {
    pub kind: FileKind,
    pub mode: u32,
    pub nlink: u32,
    pub uid: u32,
    pub gid: u32,
    pub size: u64,
    pub used: u64,
    pub rdev: Device,
    pub fsid: u64,
    pub fileid: u64,
    pub atime: NfsTime,
    pub mtime: NfsTime,
    pub ctime: NfsTime,
}

/// The type of a file with this mode. A type that is not known counts as a
/// regular file.
pub open spec fn kind_of(mode: u32) -> FileKind {
    let t = mode & types::S_IFMT;
    if t == types::S_IFDIR {
        FileKind::Directory
    } else if t == types::S_IFLNK {
        FileKind::Link
    } else if t == types::S_IFIFO {
        FileKind::Fifo
    } else if t == types::S_IFCHR {
        FileKind::Character
    } else if t == types::S_IFBLK {
        FileKind::Block
    } else if t == types::S_IFSOCK {
        FileKind::Socket
    } else {
        FileKind::Regular
    }
}

/// The first part of the number of a device, on Linux.
pub open spec fn device_major(dev: u64) -> u32 {
    (((dev & 0x00000000000fff00) >> 8) | ((dev & 0xfffff00000000000) >> 32)) as u32
}

/// The second part of the number of a device, on Linux.
pub open spec fn device_minor(dev: u64) -> u32 {
    ((dev & 0x00000000000000ff) | ((dev & 0x00000ffffff00000) >> 12)) as u32
}

/// The number of a device with these parts, on Linux.
pub open spec fn device_number(major: u32, minor: u32) -> u64 {
    (((major as u64) & 0x00000fff) << 8) | (((major as u64) & 0xfffff000) << 32) | ((minor as u64)
        & 0x000000ff) | (((minor as u64) & 0xffffff00) << 12)
}

/// `libc::major`, on Linux: the first part of the number of a device.
#[verifier::external_body]
fn major_of(dev: u64) -> (r: u32)
    ensures
        r == device_major(dev),
{
    libc::major(dev)
}

/// `libc::minor`, on Linux: the second part of the number of a device.
#[verifier::external_body]
fn minor_of(dev: u64) -> (r: u32)
    ensures
        r == device_minor(dev),
{
    libc::minor(dev)
}

/// `libc::makedev`, on Linux: the number of a device with these parts.
#[verifier::external_body]
fn makedev(major: u32, minor: u32) -> (r: u64)
    ensures
        r == device_number(major, minor),
{
    libc::makedev(major, minor)
}

/// The number of a device.
pub fn number_of(device: Device) -> (r: u64)
    ensures
        r == device_number(device.major, device.minor),
{
    makedev(device.major, device.minor)
}

pub open spec fn time_of(seconds: i64) -> NfsTime {
    NfsTime { seconds: seconds as u32, nseconds: 0 }
}

/// The attributes of the file with the identifier `id`.
pub open spec fn attr_of(node: NodeStats, id: u64) -> Fattr {
    Fattr {
        kind: kind_of(node.stats.mode),
        mode: node.stats.mode & 0o7777,
        nlink: node.stats.nlink,
        uid: node.stats.uid,
        gid: node.stats.gid,
        size: node.stats.size as u64,
        used: node.stats.size as u64,
        rdev: Device { major: device_major(node.rdev), minor: device_minor(node.rdev) },
        fsid: 0,
        fileid: id,
        atime: time_of(node.stats.atime),
        mtime: time_of(node.stats.mtime),
        ctime: time_of(node.stats.ctime),
    }
}

fn file_kind(mode: u32) -> (r: FileKind)
    ensures
        r == kind_of(mode),
{
    let t: u32 = mode & types::S_IFMT;
    if t == types::S_IFDIR {
        FileKind::Directory
    } else if t == types::S_IFLNK {
        FileKind::Link
    } else if t == types::S_IFIFO {
        FileKind::Fifo
    } else if t == types::S_IFCHR {
        FileKind::Character
    } else if t == types::S_IFBLK {
        FileKind::Block
    } else if t == types::S_IFSOCK {
        FileKind::Socket
    } else {
        FileKind::Regular
    }
}

/// The attributes of the file with the identifier `id`.
pub fn stats_to_fattr(node: &NodeStats, id: u64) -> (r: Fattr)
    ensures
        r == attr_of(*node, id),
{
    let s = &node.stats;
    Fattr {
        kind: file_kind(s.mode),
        mode: s.mode & 0o7777,
        nlink: s.nlink,
        uid: s.uid,
        gid: s.gid,
        size: s.size as u64,
        used: s.size as u64,
        rdev: Device { major: major_of(node.rdev), minor: minor_of(node.rdev) },
        fsid: 0,
        fileid: id,
        atime: NfsTime { seconds: s.atime as u32, nseconds: 0 },
        mtime: NfsTime { seconds: s.mtime as u32, nseconds: 0 },
        ctime: NfsTime { seconds: s.ctime as u32, nseconds: 0 },
    }
}

/// The bits of a mode that say what kind of node `mknod` makes.
pub open spec fn node_type(kind: FileKind) -> Option<u32> {
    match kind {
        FileKind::Character => Some(types::S_IFCHR),
        FileKind::Block => Some(types::S_IFBLK),
        FileKind::Socket => Some(types::S_IFSOCK),
        FileKind::Fifo => Some(types::S_IFIFO),
        _ => None,
    }
}

/// The bits of a mode that say what kind of node `mknod` makes.
pub fn type_bits(kind: FileKind) -> (r: Option<u32>)
    ensures
        r == node_type(kind),
{
    match kind {
        FileKind::Character => Some(types::S_IFCHR),
        FileKind::Block => Some(types::S_IFBLK),
        FileKind::Socket => Some(types::S_IFSOCK),
        FileKind::Fifo => Some(types::S_IFIFO),
        _ => None,
    }
}

/// The permissions that are asked for, or those that new entries get.
pub open spec fn permissions(asked: Option<u32>, usual: u32) -> u32 {
    match asked {
        Some(m) => m & 0o7777,
        None => usual,
    }
}

/// The permissions that are asked for, or those that new entries get.
pub fn permissions_for(asked: Option<u32>, usual: u32) -> (r: u32)
    ensures
        r == permissions(asked, usual),
{
    match asked {
        Some(m) => m & 0o7777,
        None => usual,
    }
}

/// The number of a device gives its parts back.
pub proof fn law_device_parts(major: u32, minor: u32)
    ensures
        device_major(device_number(major, minor)) == major,
        device_minor(device_number(major, minor)) == minor,
{
    assert((((((major as u64) & 0x00000fff) << 8) | (((major as u64) & 0xfffff000) << 32) | ((
    minor as u64) & 0x000000ff) | (((minor as u64) & 0xffffff00) << 12)) & 0x00000000000fff00) >> 8
        | (((((major as u64) & 0x00000fff) << 8) | (((major as u64) & 0xfffff000) << 32) | ((
    minor as u64) & 0x000000ff) | (((minor as u64) & 0xffffff00) << 12)) & 0xfffff00000000000)
        >> 32 == major as u64) by (bit_vector);
    assert((((((major as u64) & 0x00000fff) << 8) | (((major as u64) & 0xfffff000) << 32) | ((
    minor as u64) & 0x000000ff) | (((minor as u64) & 0xffffff00) << 12)) & 0x00000000000000ff) | (((
    (((major as u64) & 0x00000fff) << 8) | (((major as u64) & 0xfffff000) << 32) | ((minor as u64)
        & 0x000000ff) | (((minor as u64) & 0xffffff00) << 12)) & 0x00000ffffff00000) >> 12)
        == minor as u64) by (bit_vector);
}

/// What `mknod` makes is of the kind that was asked for.
pub proof fn law_made_node_is_of_its_kind(kind: FileKind, asked: Option<u32>)
    requires
        node_type(kind) is Some,
    ensures
        kind_of(node_type(kind)->0 | permissions(asked, 0o644)) == kind,
{
    let p = permissions(asked, 0o644);
    let m = asked->0;
    assert(asked is Some ==> p == m & 0o7777);
    assert(asked is None ==> p == 0o644);
    assert(p & 0o170000 == 0) by {
        assert(m & 0o7777 & 0o170000 == 0) by (bit_vector);
        assert(0o644u32 & 0o170000 == 0) by (bit_vector);
    }
    assert(p & 0o170000 == 0 ==> (0o020000u32 | p) & 0o170000 == 0o020000 && (0o060000u32 | p)
        & 0o170000 == 0o060000 && (0o140000u32 | p) & 0o170000 == 0o140000 && (0o010000u32 | p)
        & 0o170000 == 0o010000) by (bit_vector);
}

} // verus!
