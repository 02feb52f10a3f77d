//! Error numbers of the operating system.

use vstd::prelude::*;

verus! {

/// The errors that the file system reports.
#[derive(Debug, Clone, Copy, PartialEq, Eq, Structural)]
pub enum Errno {
    Perm,
    NoEntry,
    Io,
    BadHandle,
    Access,
    Exists,
    NotDirectory,
    IsDirectory,
    Invalid,
    NameTooLong,
    NotImplemented,
    NotEmpty,
    Loop,
    Protocol,
}

/// The number of an error on Linux.
pub open spec fn number(e: Errno) -> i32 {
    match e {
        Errno::Perm => 1,
        Errno::NoEntry => 2,
        Errno::Io => 5,
        Errno::BadHandle => 9,
        Errno::Access => 13,
        Errno::Exists => 17,
        Errno::NotDirectory => 20,
        Errno::IsDirectory => 21,
        Errno::Invalid => 22,
        Errno::NameTooLong => 36,
        Errno::NotImplemented => 38,
        Errno::NotEmpty => 39,
        Errno::Loop => 40,
        Errno::Protocol => 71,
    }
}

/// `libc::EPERM`, on Linux.
#[verifier::external_body]
fn eperm() -> (r: i32)
    ensures
        r == 1,
{
    libc::EPERM
}

/// `libc::ENOENT`, on Linux.
#[verifier::external_body]
fn enoent() -> (r: i32)
    ensures
        r == 2,
{
    libc::ENOENT
}

/// `libc::EIO`, on Linux.
#[verifier::external_body]
fn eio() -> (r: i32)
    ensures
        r == 5,
{
    libc::EIO
}

/// `libc::EBADF`, on Linux.
#[verifier::external_body]
fn ebadf() -> (r: i32)
    ensures
        r == 9,
{
    libc::EBADF
}

/// `libc::EACCES`, on Linux.
#[verifier::external_body]
fn eacces() -> (r: i32)
    ensures
        r == 13,
{
    libc::EACCES
}

/// `libc::EEXIST`, on Linux.
#[verifier::external_body]
fn eexist() -> (r: i32)
    ensures
        r == 17,
{
    libc::EEXIST
}

/// `libc::ENOTDIR`, on Linux.
#[verifier::external_body]
fn enotdir() -> (r: i32)
    ensures
        r == 20,
{
    libc::ENOTDIR
}

/// `libc::EISDIR`, on Linux.
#[verifier::external_body]
fn eisdir() -> (r: i32)
    ensures
        r == 21,
{
    libc::EISDIR
}

/// `libc::EINVAL`, on Linux.
#[verifier::external_body]
fn einval() -> (r: i32)
    ensures
        r == 22,
{
    libc::EINVAL
}

/// `libc::ENAMETOOLONG`, on Linux.
#[verifier::external_body]
fn enametoolong() -> (r: i32)
    ensures
        r == 36,
{
    libc::ENAMETOOLONG
}

/// `libc::ENOSYS`, on Linux.
#[verifier::external_body]
fn enosys() -> (r: i32)
    ensures
        r == 38,
{
    libc::ENOSYS
}

/// `libc::ENOTEMPTY`, on Linux.
#[verifier::external_body]
fn enotempty() -> (r: i32)
    ensures
        r == 39,
{
    libc::ENOTEMPTY
}

/// `libc::ELOOP`, on Linux.
#[verifier::external_body]
fn eloop() -> (r: i32)
    ensures
        r == 40,
{
    libc::ELOOP
}

/// `libc::EPROTO`, on Linux.
#[verifier::external_body]
fn eproto() -> (r: i32)
    ensures
        r == 71,
{
    libc::EPROTO
}

impl Errno {
    /// The number of this error.
    pub fn code(self) -> (r: i32)
        ensures
            r == number(self),
    {
        match self {
            Errno::Perm => eperm(),
            Errno::NoEntry => enoent(),
            Errno::Io => eio(),
            Errno::BadHandle => ebadf(),
            Errno::Access => eacces(),
            Errno::Exists => eexist(),
            Errno::NotDirectory => enotdir(),
            Errno::IsDirectory => eisdir(),
            Errno::Invalid => einval(),
            Errno::NameTooLong => enametoolong(),
            Errno::NotImplemented => enosys(),
            Errno::NotEmpty => enotempty(),
            Errno::Loop => eloop(),
            Errno::Protocol => eproto(),
        }
    }
}

} // verus!
