//! Status codes and file information of Windows.

use crate::arith;
use crate::fs::types;
use crate::fs::types::{FsError, Stats};
use crate::nodes::{IoKind, SdkError, TimeChange};
use crate::text;
use vstd::prelude::*;
use vstd::string::*;

verus! {

pub const FILE_ATTRIBUTE_DIRECTORY: u32 = 0x00000010;

pub const FILE_ATTRIBUTE_NORMAL: u32 = 0x00000020;

pub const FILE_ATTRIBUTE_READONLY: u32 = 0x00000001;

pub const FILE_ATTRIBUTE_REPARSE_POINT: u32 = 0x00000400;

/// The bit of the options of a creation that asks for a directory.
pub const FILE_DIRECTORY_FILE: u32 = 0x00000001;

/// 0xC0000034 as a signed number.
pub const STATUS_OBJECT_NAME_NOT_FOUND: i32 = -1073741772;

/// 0xC0000035 as a signed number.
pub const STATUS_OBJECT_NAME_COLLISION: i32 = -1073741771;

/// 0xC0000022 as a signed number.
pub const STATUS_ACCESS_DENIED: i32 = -1073741790;

/// 0xC00000BA as a signed number.
pub const STATUS_FILE_IS_A_DIRECTORY: i32 = -1073741638;

/// 0xC0000103 as a signed number.
pub const STATUS_NOT_A_DIRECTORY: i32 = -1073741565;

/// 0xC0000101 as a signed number.
pub const STATUS_DIRECTORY_NOT_EMPTY: i32 = -1073741567;

/// 0xC000000D as a signed number.
pub const STATUS_INVALID_PARAMETER: i32 = -1073741811;

/// 0xC000007F as a signed number.
pub const STATUS_DISK_FULL: i32 = -1073741697;

/// 0xC0000033 as a signed number.
pub const STATUS_OBJECT_NAME_INVALID: i32 = -1073741773;

/// The seconds between the start of 1601, from which Windows counts, and the
/// start of 1970.
pub const UNIX_EPOCH_DIFF: i64 = 11644473600;

/// The ticks of 100 nanoseconds in a second.
pub const TICKS_PER_SECOND: i64 = 10000000;

/// The size of a volume, as Windows is told: one gigabyte.
pub const VOLUME_SIZE: u64 = 1073741824;

/// The status code for an error of the file system.
pub open spec fn fs_status(e: FsError) -> i32 {
    match e {
        FsError::NotFound => STATUS_OBJECT_NAME_NOT_FOUND,
        FsError::AlreadyExists => STATUS_OBJECT_NAME_COLLISION,
        FsError::NotADirectory => STATUS_NOT_A_DIRECTORY,
        FsError::IsADirectory => STATUS_FILE_IS_A_DIRECTORY,
        FsError::NotEmpty => STATUS_DIRECTORY_NOT_EMPTY,
        FsError::InvalidPath => STATUS_OBJECT_NAME_INVALID,
        FsError::RootOperation => STATUS_ACCESS_DENIED,
        FsError::SymlinkLoop => STATUS_INVALID_PARAMETER,
        FsError::InvalidRename => STATUS_INVALID_PARAMETER,
        FsError::NameTooLong => STATUS_OBJECT_NAME_INVALID,
        FsError::NotASymlink => STATUS_INVALID_PARAMETER,
    }
}

/// The status code for an error of input and output.
pub open spec fn io_status(k: IoKind) -> i32 {
    match k {
        IoKind::NotFound => STATUS_OBJECT_NAME_NOT_FOUND,
        IoKind::PermissionDenied => STATUS_ACCESS_DENIED,
        IoKind::AlreadyExists => STATUS_OBJECT_NAME_COLLISION,
        IoKind::InvalidInput => STATUS_INVALID_PARAMETER,
        IoKind::StorageFull => STATUS_DISK_FULL,
        IoKind::Other => STATUS_INVALID_PARAMETER,
    }
}

/// The status code for a failure.
pub open spec fn status_of(e: SdkError) -> i32 {
    match e {
        SdkError::Fs(e) => fs_status(e),
        SdkError::Io(k) => io_status(k),
        _ => STATUS_INVALID_PARAMETER,
    }
}

/// How a path fails to lead anywhere: a call has failed, something on the way is
/// not a directory or not there, or it is an error of input and output.
#[derive(Debug, Clone, Copy, PartialEq, Eq, Structural)]
pub enum PathFailure {
    Sdk(SdkError),
    Io(IoKind),
    Message,
}

/// The status code for a path that does not lead anywhere.
pub open spec fn path_status(f: PathFailure) -> i32 {
    match f {
        PathFailure::Sdk(e) => status_of(e),
        PathFailure::Io(k) => io_status(k),
        PathFailure::Message => STATUS_INVALID_PARAMETER,
    }
}

fn io_to_ntstatus(k: IoKind) -> (r: i32)
    ensures
        r == io_status(k),
{
    match k {
        IoKind::NotFound => STATUS_OBJECT_NAME_NOT_FOUND,
        IoKind::PermissionDenied => STATUS_ACCESS_DENIED,
        IoKind::AlreadyExists => STATUS_OBJECT_NAME_COLLISION,
        IoKind::InvalidInput => STATUS_INVALID_PARAMETER,
        IoKind::StorageFull => STATUS_DISK_FULL,
        IoKind::Other => STATUS_INVALID_PARAMETER,
    }
}

/// The status code for a failure.
pub fn error_to_ntstatus(e: SdkError) -> (r: i32)
    ensures
        r == status_of(e),
{
    match e {
        SdkError::Fs(fs) => match fs {
            FsError::NotFound => STATUS_OBJECT_NAME_NOT_FOUND,
            FsError::AlreadyExists => STATUS_OBJECT_NAME_COLLISION,
            FsError::NotADirectory => STATUS_NOT_A_DIRECTORY,
            FsError::IsADirectory => STATUS_FILE_IS_A_DIRECTORY,
            FsError::NotEmpty => STATUS_DIRECTORY_NOT_EMPTY,
            FsError::InvalidPath => STATUS_OBJECT_NAME_INVALID,
            FsError::RootOperation => STATUS_ACCESS_DENIED,
            FsError::SymlinkLoop => STATUS_INVALID_PARAMETER,
            FsError::InvalidRename => STATUS_INVALID_PARAMETER,
            FsError::NameTooLong => STATUS_OBJECT_NAME_INVALID,
            FsError::NotASymlink => STATUS_INVALID_PARAMETER,
        },
        SdkError::Io(k) => io_to_ntstatus(k),
        _ => STATUS_INVALID_PARAMETER,
    }
}

/// The status code for a path that does not lead anywhere.
pub fn anyhow_to_ntstatus(f: PathFailure) -> (r: i32)
    ensures
        r == path_status(f),
{
    match f {
        PathFailure::Sdk(e) => error_to_ntstatus(e),
        PathFailure::Io(k) => io_to_ntstatus(k),
        PathFailure::Message => STATUS_INVALID_PARAMETER,
    }
}

/// The attributes of a file with this mode, before it is asked whether it may be
/// written.
pub open spec fn type_attributes(mode: u32) -> u32 {
    if types::dir_mode(mode) {
        FILE_ATTRIBUTE_DIRECTORY
    } else if types::link_mode(mode) {
        FILE_ATTRIBUTE_NORMAL | FILE_ATTRIBUTE_REPARSE_POINT
    } else {
        FILE_ATTRIBUTE_NORMAL
    }
}

/// The attributes of a file with this mode: one that its owner may not write is
/// read-only.
pub open spec fn attributes_of(mode: u32) -> u32 {
    if mode & 0o200 == 0 {
        type_attributes(mode) | FILE_ATTRIBUTE_READONLY
    } else {
        type_attributes(mode)
    }
}

/// The attributes of a file with this mode.
pub fn mode_to_attributes(mode: u32) -> (r: u32)
    ensures
        r == attributes_of(mode),
{
    let file_type: u32 = mode & types::S_IFMT;
    let attrs: u32 = if file_type == types::S_IFDIR {
        FILE_ATTRIBUTE_DIRECTORY
    } else if file_type == types::S_IFLNK {
        FILE_ATTRIBUTE_NORMAL | FILE_ATTRIBUTE_REPARSE_POINT
    } else {
        FILE_ATTRIBUTE_NORMAL
    };
    if (mode & 0o200) == 0 {
        attrs | FILE_ATTRIBUTE_READONLY
    } else {
        attrs
    }
}

/// What Windows is told of a file. Times are ticks since the start of 1601.
#[derive(Debug, Clone, Copy, PartialEq, Eq, Structural)]
pub struct FileInfo {
    pub file_attributes: u32,
    pub reparse_tag: u32,
    pub allocation_size: u64,
    pub file_size: u64,
    pub creation_time: u64,
    pub last_access_time: u64,
    pub last_write_time: u64,
    pub change_time: u64,
    pub index_number: u64,
    pub hard_links: u32,
    pub ea_size: u32,
}

/// A point in time in the ticks of Windows, in the arithmetic of 64 bits.
pub open spec fn ticks_of(seconds: i64) -> u64 {
    seconds.wrapping_add(UNIX_EPOCH_DIFF).wrapping_mul(TICKS_PER_SECOND) as u64
}

/// The seconds since the start of 1970 at a point in time of Windows.
pub open spec fn seconds_of(ticks: u64) -> int {
    arith::toward_zero(ticks as i64 as int, TICKS_PER_SECOND as int) - UNIX_EPOCH_DIFF
}

/// The size in whole pages of 4096 bytes, in the arithmetic of 64 bits.
pub open spec fn allocation_of(size: i64) -> u64 {
    ((arith::toward_zero(size.wrapping_add(4095) as int, 4096) * 4096) as i64) as u64
}

/// What Windows is told of a file.
pub open spec fn info_of(stats: Stats) -> FileInfo {
    FileInfo {
        file_attributes: attributes_of(stats.mode),
        reparse_tag: if types::link_mode(stats.mode) {
            1
        } else {
            0
        },
        allocation_size: allocation_of(stats.size),
        file_size: stats.size as u64,
        creation_time: ticks_of(stats.ctime),
        last_access_time: ticks_of(stats.atime),
        last_write_time: ticks_of(stats.mtime),
        change_time: ticks_of(stats.mtime),
        index_number: stats.ino as u64,
        hard_links: 1,
        ea_size: 0,
    }
}

fn ticks(seconds: i64) -> (r: u64)
    ensures
        r == ticks_of(seconds),
{
    seconds.wrapping_add(UNIX_EPOCH_DIFF).wrapping_mul(TICKS_PER_SECOND) as u64
}

fn allocation(size: i64) -> (r: u64)
    ensures
        r == allocation_of(size),
{
    let n: i64 = size.wrapping_add(4095);
    let q: i64 = arith::divide(n, 4096);
    assert(q * 4096 == arith::toward_zero(n as int, 4096) * 4096);
    (q * 4096) as u64
}

/// What Windows is told of a file.
pub fn fill_file_info(stats: &Stats) -> (r: FileInfo)
    ensures
        r == info_of(*stats),
{
    let last_write_time: u64 = ticks(stats.mtime);
    FileInfo {
        file_attributes: mode_to_attributes(stats.mode),
        reparse_tag: if stats.is_symlink() {
            1
        } else {
            0
        },
        allocation_size: allocation(stats.size),
        file_size: stats.size as u64,
        creation_time: ticks(stats.ctime),
        last_access_time: ticks(stats.atime),
        last_write_time,
        change_time: last_write_time,
        index_number: stats.ino as u64,
        hard_links: 1,
        ea_size: 0,
    }
}

/// The change that a point in time of Windows asks for: zero asks for none.
pub open spec fn time_change(ticks: u64) -> TimeChange {
    if ticks == 0 {
        TimeChange::Omit
    } else {
        TimeChange::At(seconds_of(ticks) as i64, 0)
    }
}

/// The change that a point in time of Windows asks for.
pub fn change_to(ticks: u64) -> (r: TimeChange)
    ensures
        r == time_change(ticks),
{
    if ticks == 0 {
        TimeChange::Omit
    } else {
        let q: i64 = arith::divide(ticks as i64, TICKS_PER_SECOND);
        assert(-922337203686 < q < 922337203686);
        TimeChange::At(q - UNIX_EPOCH_DIFF, 0)
    }
}

/// The mountpoint without the prefix that paths have after they have been
/// resolved, which the driver does not take.
pub open spec fn plain_mountpoint(path: Seq<char>) -> Seq<char> {
    if text::begins(path, "\\\\?\\"@) {
        path.skip("\\\\?\\"@.len() as int)
    } else {
        path
    }
}

/// The mountpoint without the prefix that the driver does not take.
pub fn strip_verbatim(path: &str) -> (r: String)
    ensures
        r@ == plain_mountpoint(path@),
{
    match text::strip_prefix(path, "\\\\?\\") {
        Some(rest) => rest,
        None => path.to_owned(),
    }
}

/// Whether a mount counts as ready: it can be listed, or it is at least there.
pub fn mount_ready(listed: bool, exists: bool) -> (r: bool)
    ensures
        r == (listed || exists),
{
    listed || exists
}

/// A time that the ticks of Windows can hold goes to Windows and comes back the
/// same; only the very start of 1601 is taken for no time at all.
pub proof fn law_times_come_back(seconds: i64)
    requires
        i64::MIN <= (seconds + UNIX_EPOCH_DIFF) * TICKS_PER_SECOND <= i64::MAX,
    ensures
        seconds_of(ticks_of(seconds)) == seconds,
        seconds != -UNIX_EPOCH_DIFF ==> time_change(ticks_of(seconds)) == TimeChange::At(
            seconds,
            0,
        ),
{
    let t = (seconds + UNIX_EPOCH_DIFF) * TICKS_PER_SECOND;
    assert(seconds.wrapping_add(UNIX_EPOCH_DIFF) == seconds + UNIX_EPOCH_DIFF);
    let narrow = t as i64;
    assert(ticks_of(seconds) == narrow as u64);
    assert((narrow as u64) as i64 == narrow) by (bit_vector);
    assert(narrow as u64 == 0 ==> narrow == 0) by (bit_vector);
    assert(t / (TICKS_PER_SECOND as int) == seconds + UNIX_EPOCH_DIFF);
}

/// Directories, links and the rest are told apart by their attributes, and so is
/// what may not be written.
pub proof fn law_attributes_tell_apart(mode: u32)
    ensures
        attributes_of(mode) & FILE_ATTRIBUTE_DIRECTORY != 0 <==> types::dir_mode(mode),
        attributes_of(mode) & FILE_ATTRIBUTE_REPARSE_POINT != 0 <==> types::link_mode(mode),
        attributes_of(mode) & FILE_ATTRIBUTE_READONLY != 0 <==> mode & 0o200 == 0,
{
    assert(0x10u32 & 0x10 != 0 && 0x10u32 & 0x400 == 0 && 0x10u32 & 0x1 == 0 && (0x20u32 | 0x400)
        & 0x10 == 0 && (0x20u32 | 0x400) & 0x400 != 0 && (0x20u32 | 0x400) & 0x1 == 0 && 0x20u32
        & 0x10 == 0 && 0x20u32 & 0x400 == 0 && 0x20u32 & 0x1 == 0) by (bit_vector);
    let a = type_attributes(mode);
    assert((a | 0x1) & 0x10 == a & 0x10 && (a | 0x1) & 0x400 == a & 0x400 && (a | 0x1) & 0x1
        != 0) by (bit_vector);
}

/// The room that a file takes is in whole pages and holds it.
pub proof fn law_allocation_holds_the_file(size: i64)
    requires
        0 <= size <= i64::MAX - 4095,
    ensures
        allocation_of(size) % 4096 == 0,
        size <= allocation_of(size) < size + 4096,
{
}

} // verus!
