//! Requests of the kernel to a file system in user space: which are refused,
//! and which method of the file system answers each of the others.

use crate::errno::Errno;
use vstd::prelude::*;

verus! {

/// Who may use the file system besides its owner.
#[derive(Debug, Clone, Copy, PartialEq, Eq, Structural)]
pub enum SessionACL {
    All,
    RootAndOwner,
    Owner,
}

/// The state of the conversation with the kernel.
#[derive(Debug, Clone, Copy, PartialEq, Eq, Structural)]
pub struct Session {
    pub allowed: SessionACL,
    pub session_owner: u32,
    pub proto_major: u32,
    pub proto_minor: u32,
    pub initialized: bool,
    pub destroyed: bool,
}

/// A point in time: seconds since the start of 1970, and nanoseconds.
#[derive(Debug, Clone, Copy, PartialEq, Eq, Structural)]
pub struct Time {
    pub secs: i64,
    pub nanos: u32,
}

/// A point in time, or the present.
#[derive(Debug, Clone, Copy, PartialEq, Eq, Structural)]
pub enum TimeOrNow {
    SpecificTime(Time),
    Now,
}

/// The attributes that are to change.
#[derive(Debug, Clone, Copy, PartialEq, Eq, Structural)]
pub struct AttrChange {
    pub mode: Option<u32>,
    pub uid: Option<u32>,
    pub gid: Option<u32>,
    pub size: Option<u64>,
    pub atime: Option<TimeOrNow>,
    pub mtime: Option<TimeOrNow>,
    pub ctime: Option<Time>,
    pub fh: Option<u64>,
    pub crtime: Option<Time>,
    pub chgtime: Option<Time>,
    pub bkuptime: Option<Time>,
    pub flags: Option<u32>,
}

/// A lock on a range of a file.
#[derive(Debug, Clone, Copy, PartialEq, Eq, Structural)]
pub struct LockRange {
    pub start: u64,
    pub end: u64,
    pub typ: i32,
    pub pid: u32,
}

/// An operation that the kernel asks for. `N` is the type of names, `D` that of
/// data, `L` that of lists of inodes.
#[derive(Debug)]
pub enum Operation<N, D, L> {
    Init { major: u32, minor: u32, capabilities: u64, max_readahead: u32 },
    Destroy,
    Interrupt,
    NotifyReply,
    CuseInit,
    Lookup { name: N },
    Forget { nlookup: u64 },
    GetAttr { fh: Option<u64> },
    SetAttr { attr: AttrChange },
    ReadLink,
    MkNod { name: N, mode: u32, umask: u32, rdev: u32 },
    MkDir { name: N, mode: u32, umask: u32 },
    Unlink { name: N },
    RmDir { name: N },
    SymLink { link_name: N, target: N },
    Rename { name: N, newparent: u64, newname: N },
    Link { inode: u64, newname: N },
    Open { flags: i32 },
    Read { fh: u64, offset: i64, size: u32, flags: i32, lock_owner: Option<u64> },
    Write { fh: u64, offset: i64, data: D, write_flags: u32, flags: i32, lock_owner: Option<u64> },
    Flush { fh: u64, lock_owner: u64 },
    Release { fh: u64, flags: i32, lock_owner: Option<u64>, flush: bool },
    FSync { fh: u64, datasync: bool },
    OpenDir { flags: i32 },
    ReadDir { fh: u64, offset: i64, size: u32 },
    ReadDirPlus { fh: u64, offset: i64, size: u32 },
    ReleaseDir { fh: u64, flags: i32 },
    FSyncDir { fh: u64, datasync: bool },
    StatFs,
    SetXAttr { name: N, value: D, flags: i32, position: u32 },
    GetXAttr { name: N, size: u32 },
    ListXAttr { size: u32 },
    RemoveXAttr { name: N },
    Access { mask: i32 },
    Create { name: N, mode: u32, umask: u32, flags: i32 },
    GetLk { fh: u64, lock_owner: u64, lock: LockRange },
    SetLk { fh: u64, lock_owner: u64, lock: LockRange },
    SetLkW { fh: u64, lock_owner: u64, lock: LockRange },
    BMap { block_size: u32, block: u64 },
    IoCtl { fh: u64, unrestricted: bool, flags: u32, command: u32, in_data: D, out_size: u32 },
    Poll { fh: u64, kernel_handle: u64, events: u32, flags: u32 },
    BatchForget { nodes: L },
    FAllocate { fh: u64, offset: i64, length: i64, mode: i32 },
    Rename2 { parent: u64, name: N, newparent: u64, newname: N, flags: u32 },
    Lseek { fh: u64, offset: i64, whence: i32 },
    CopyFileRange { ino_in: u64, fh_in: u64, offset_in: i64, ino_out: u64, fh_out: u64, offset_out: i64, length: u64, flags: u64 },
    SetVolName { name: N },
    GetXTimes { ino: u64 },
    Exchange { parent: u64, name: N, newparent: u64, newname: N, options: u64 },
}

/// A call of a method of the file system, with its arguments.
#[derive(Debug)]
pub enum Call<N, D, L> {
    Lookup { parent: u64, name: N },
    Forget { ino: u64, nlookup: u64 },
    GetAttr { ino: u64, fh: Option<u64> },
    SetAttr { ino: u64, attr: AttrChange },
    ReadLink { ino: u64 },
    MkNod { parent: u64, name: N, mode: u32, umask: u32, rdev: u32 },
    MkDir { parent: u64, name: N, mode: u32, umask: u32 },
    Unlink { parent: u64, name: N },
    RmDir { parent: u64, name: N },
    SymLink { parent: u64, link_name: N, target: N },
    Rename { parent: u64, name: N, newparent: u64, newname: N, flags: u32 },
    Link { ino: u64, newparent: u64, newname: N },
    Open { ino: u64, flags: i32 },
    Read { ino: u64, fh: u64, offset: i64, size: u32, flags: i32, lock_owner: Option<u64> },
    Write { ino: u64, fh: u64, offset: i64, data: D, write_flags: u32, flags: i32, lock_owner: Option<u64> },
    Flush { ino: u64, fh: u64, lock_owner: u64 },
    Release { ino: u64, fh: u64, flags: i32, lock_owner: Option<u64>, flush: bool },
    FSync { ino: u64, fh: u64, datasync: bool },
    OpenDir { ino: u64, flags: i32 },
    ReadDir { ino: u64, fh: u64, offset: i64, size: u32 },
    ReadDirPlus { ino: u64, fh: u64, offset: i64, size: u32 },
    ReleaseDir { ino: u64, fh: u64, flags: i32 },
    FSyncDir { ino: u64, fh: u64, datasync: bool },
    StatFs { ino: u64 },
    SetXAttr { ino: u64, name: N, value: D, flags: i32, position: u32 },
    GetXAttr { ino: u64, name: N, size: u32 },
    ListXAttr { ino: u64, size: u32 },
    RemoveXAttr { ino: u64, name: N },
    Access { ino: u64, mask: i32 },
    Create { parent: u64, name: N, mode: u32, umask: u32, flags: i32 },
    GetLk { ino: u64, fh: u64, lock_owner: u64, lock: LockRange },
    SetLk { ino: u64, fh: u64, lock_owner: u64, lock: LockRange, sleep: bool },
    BMap { ino: u64, block_size: u32, block: u64 },
    IoCtl { ino: u64, fh: u64, flags: u32, command: u32, in_data: D, out_size: u32 },
    Poll { ino: u64, fh: u64, kernel_handle: u64, events: u32, flags: u32 },
    BatchForget { nodes: L },
    FAllocate { ino: u64, fh: u64, offset: i64, length: i64, mode: i32 },
    Lseek { ino: u64, fh: u64, offset: i64, whence: i32 },
    CopyFileRange { ino_in: u64, fh_in: u64, offset_in: i64, ino_out: u64, fh_out: u64, offset_out: i64, length: u64, flags: u32 },
    SetVolName { name: N },
    GetXTimes { ino: u64 },
    Exchange { parent: u64, name: N, newparent: u64, newname: N, options: u64 },
}

/// What becomes of a request that is not refused.
#[derive(Debug)]
pub enum Dispatch<N, D, L> {
    /// The file system is to be initialised; `finish_init` takes the outcome.
    Init { capabilities: u64, max_readahead: u32 },
    /// The file system is to be told that it ends, and the request is answered.
    Destroyed,
    /// The file system answers.
    Call(Call<N, D, L>),
}

/// A request: who asks, for which inode, and for what. An operation that is not
/// known is `None`.
#[derive(Debug)]
pub struct Request<N, D, L> {
    pub unique: u64,
    pub uid: u32,
    pub gid: u32,
    pub pid: u32,
    pub nodeid: u64,
    pub operation: Option<Operation<N, D, L>>,
}

/// Whether the access rules of the session keep a user out.
pub open spec fn kept_out(se: Session, uid: u32) -> bool {
    match se.allowed {
        SessionACL::All => false,
        SessionACL::RootAndOwner => uid != se.session_owner && uid != 0,
        SessionACL::Owner => uid != se.session_owner,
    }
}

/// Operations that the kernel may ask for without saying for whom.
pub open spec fn comes_from_kernel<N, D, L>(op: Operation<N, D, L>) -> bool {
    ||| op is Init
    ||| op is Destroy
    ||| op is Read
    ||| op is ReadDir
    ||| op is ReadDirPlus
    ||| op is BatchForget
    ||| op is Forget
    ||| op is Write
    ||| op is FSync
    ||| op is FSyncDir
    ||| op is Release
    ||| op is ReleaseDir
}

/// Operations that nobody answers.
pub open spec fn unsupported<N, D, L>(op: Operation<N, D, L>) -> bool {
    ||| op is Interrupt
    ||| op is NotifyReply
    ||| op is CuseInit
    ||| op is IoCtl && op->IoCtl_unrestricted
}

/// Protocol versions before 7.6 are too old.
pub open spec fn too_old(major: u32, minor: u32) -> bool {
    major < 7 || major == 7 && minor < 6
}

/// Why a request is refused, if it is.
pub open spec fn refusal<N, D, L>(se: Session, req: Request<N, D, L>) -> Option<Errno> {
    match req.operation {
        None => Some(Errno::NotImplemented),
        Some(op) => if kept_out(se, req.uid) && !comes_from_kernel(op) {
            Some(Errno::Access)
        } else if op is Init {
            if too_old(op->Init_major, op->Init_minor) {
                Some(Errno::Protocol)
            } else {
                None
            }
        } else if !se.initialized {
            Some(Errno::Io)
        } else if op is Destroy {
            None
        } else if se.destroyed {
            Some(Errno::Io)
        } else if unsupported(op) {
            Some(Errno::NotImplemented)
        } else {
            None
        },
    }
}

/// The method that answers an operation on the inode `node`. Where sessions are
/// shared between tasks, the extended times are those of the inode that the
/// request names, else those of the inode that the operation names.
pub open spec fn call_of<N, D, L>(
    node: u64,
    op: Operation<N, D, L>,
    shared: bool,
) -> Option<Call<N, D, L>> {
    match op {
        Operation::Lookup { name } => Some(Call::Lookup { parent: node, name }),
        Operation::Forget { nlookup } => Some(Call::Forget { ino: node, nlookup }),
        Operation::GetAttr { fh } => Some(Call::GetAttr { ino: node, fh }),
        Operation::SetAttr { attr } => Some(Call::SetAttr { ino: node, attr }),
        Operation::ReadLink => Some(Call::ReadLink { ino: node }),
        Operation::MkNod { name, mode, umask, rdev } => Some(Call::MkNod { parent: node, name, mode, umask, rdev }),
        Operation::MkDir { name, mode, umask } => Some(Call::MkDir { parent: node, name, mode, umask }),
        Operation::Unlink { name } => Some(Call::Unlink { parent: node, name }),
        Operation::RmDir { name } => Some(Call::RmDir { parent: node, name }),
        Operation::SymLink { link_name, target } => Some(Call::SymLink { parent: node, link_name, target }),
        Operation::Rename { name, newparent, newname } => Some(Call::Rename { parent: node, name, newparent, newname, flags: 0 }),
        Operation::Link { inode, newname } => Some(Call::Link { ino: inode, newparent: node, newname }),
        Operation::Open { flags } => Some(Call::Open { ino: node, flags }),
        Operation::Read { fh, offset, size, flags, lock_owner } => Some(Call::Read { ino: node, fh, offset, size, flags, lock_owner }),
        Operation::Write { fh, offset, data, write_flags, flags, lock_owner } => Some(Call::Write { ino: node, fh, offset, data, write_flags, flags, lock_owner }),
        Operation::Flush { fh, lock_owner } => Some(Call::Flush { ino: node, fh, lock_owner }),
        Operation::Release { fh, flags, lock_owner, flush } => Some(Call::Release { ino: node, fh, flags, lock_owner, flush }),
        Operation::FSync { fh, datasync } => Some(Call::FSync { ino: node, fh, datasync }),
        Operation::OpenDir { flags } => Some(Call::OpenDir { ino: node, flags }),
        Operation::ReadDir { fh, offset, size } => Some(Call::ReadDir { ino: node, fh, offset, size }),
        Operation::ReadDirPlus { fh, offset, size } => Some(Call::ReadDirPlus { ino: node, fh, offset, size }),
        Operation::ReleaseDir { fh, flags } => Some(Call::ReleaseDir { ino: node, fh, flags }),
        Operation::FSyncDir { fh, datasync } => Some(Call::FSyncDir { ino: node, fh, datasync }),
        Operation::StatFs => Some(Call::StatFs { ino: node }),
        Operation::SetXAttr { name, value, flags, position } => Some(Call::SetXAttr { ino: node, name, value, flags, position }),
        Operation::GetXAttr { name, size } => Some(Call::GetXAttr { ino: node, name, size }),
        Operation::ListXAttr { size } => Some(Call::ListXAttr { ino: node, size }),
        Operation::RemoveXAttr { name } => Some(Call::RemoveXAttr { ino: node, name }),
        Operation::Access { mask } => Some(Call::Access { ino: node, mask }),
        Operation::Create { name, mode, umask, flags } => Some(Call::Create { parent: node, name, mode, umask, flags }),
        Operation::GetLk { fh, lock_owner, lock } => Some(Call::GetLk { ino: node, fh, lock_owner, lock }),
        Operation::SetLk { fh, lock_owner, lock } => Some(Call::SetLk { ino: node, fh, lock_owner, lock, sleep: false }),
        Operation::SetLkW { fh, lock_owner, lock } => Some(Call::SetLk { ino: node, fh, lock_owner, lock, sleep: true }),
        Operation::BMap { block_size, block } => Some(Call::BMap { ino: node, block_size, block }),
        Operation::IoCtl { fh, flags, command, in_data, out_size, .. } => Some(Call::IoCtl { ino: node, fh, flags, command, in_data, out_size }),
        Operation::Poll { fh, kernel_handle, events, flags } => Some(Call::Poll { ino: node, fh, kernel_handle, events, flags }),
        Operation::BatchForget { nodes } => Some(Call::BatchForget { nodes }),
        Operation::FAllocate { fh, offset, length, mode } => Some(Call::FAllocate { ino: node, fh, offset, length, mode }),
        Operation::Rename2 { parent, name, newparent, newname, flags } => Some(Call::Rename { parent, name, newparent, newname, flags }),
        Operation::Lseek { fh, offset, whence } => Some(Call::Lseek { ino: node, fh, offset, whence }),
        Operation::CopyFileRange { ino_in, fh_in, offset_in, ino_out, fh_out, offset_out, length, flags } => Some(Call::CopyFileRange { ino_in, fh_in, offset_in, ino_out, fh_out, offset_out, length, flags: flags as u32 }),
        Operation::SetVolName { name } => Some(Call::SetVolName { name }),
        Operation::GetXTimes { ino } => Some(Call::GetXTimes { ino: if shared { node } else { ino } }),
        Operation::Exchange { parent, name, newparent, newname, options } => Some(Call::Exchange { parent, name, newparent, newname, options }),
        _ => None,
    }
}

/// What becomes of a request.
pub open spec fn decision<N, D, L>(
    se: Session,
    req: Request<N, D, L>,
    shared: bool,
) -> Result<Dispatch<N, D, L>, Errno> {
    match refusal(se, req) {
        Some(e) => Err(e),
        None => match req.operation->0 {
            Operation::Init { capabilities, max_readahead, .. } => Ok(
                Dispatch::Init { capabilities, max_readahead },
            ),
            Operation::Destroy => Ok(Dispatch::Destroyed),
            op => Ok(Dispatch::Call(call_of(req.nodeid, op, shared)->0)),
        },
    }
}

/// The session after a request: an accepted greeting leaves its version behind,
/// and the end of the file system is remembered.
pub open spec fn session_after<N, D, L>(se: Session, req: Request<N, D, L>) -> Session {
    if refusal(se, req) is Some {
        se
    } else {
        match req.operation->0 {
            Operation::Init { major, minor, .. } => Session {
                proto_major: major,
                proto_minor: minor,
                ..se
            },
            Operation::Destroy => Session { destroyed: true, ..se },
            _ => se,
        }
    }
}

/// The flags of a copy between files are 32 bits wide in the method that
/// answers it.
pub open spec fn fits<N, D, L>(se: Session, req: Request<N, D, L>) -> bool {
    refusal(se, req) is None ==> (req.operation->0 is CopyFileRange
        ==> req.operation->0->CopyFileRange_flags <= u32::MAX)
}

impl Session {
    /// A session that has not begun.
    pub fn new(allowed: SessionACL, session_owner: u32) -> (r: Self)
        ensures
            r == (Session {
                allowed,
                session_owner,
                proto_major: 0,
                proto_minor: 0,
                initialized: false,
                destroyed: false,
            }),
    {
        Session {
            allowed,
            session_owner,
            proto_major: 0,
            proto_minor: 0,
            initialized: false,
            destroyed: false,
        }
    }

    /// Takes the outcome of the file system's own initialisation, which may be an
    /// error number.
    pub fn finish_init(&mut self, outcome: Result<(), i32>) -> (r: Result<(), i32>)
        ensures
            r == outcome,
            *final(self) == (Session {
                initialized: old(self).initialized || outcome is Ok,
                ..*old(self)
            }),
    {
        if outcome.is_ok() {
            self.initialized = true;
        }
        outcome
    }
}

impl<N, D, L> Operation<N, D, L> {
    /// Whether the kernel may ask for this operation without saying for whom.
    pub fn is_kernels(&self) -> (r: bool)
        ensures
            r == comes_from_kernel(*self),
    {
        match self {
            Operation::Init { .. } => true,
            Operation::Destroy => true,
            Operation::Read { .. } => true,
            Operation::ReadDir { .. } => true,
            Operation::ReadDirPlus { .. } => true,
            Operation::BatchForget { .. } => true,
            Operation::Forget { .. } => true,
            Operation::Write { .. } => true,
            Operation::FSync { .. } => true,
            Operation::FSyncDir { .. } => true,
            Operation::Release { .. } => true,
            Operation::ReleaseDir { .. } => true,
            _ => false,
        }
    }

    /// Whether nobody answers this operation.
    pub fn is_unsupported(&self) -> (r: bool)
        ensures
            r == unsupported(*self),
    {
        match self {
            Operation::Interrupt => true,
            Operation::NotifyReply => true,
            Operation::CuseInit => true,
            Operation::IoCtl { unrestricted, .. } => *unrestricted,
            _ => false,
        }
    }
}

/// The method that answers an operation on the inode `node`.
fn method_for<N, D, L>(node: u64, op: Operation<N, D, L>, shared: bool) -> (r: Option<
    Call<N, D, L>,
>)
    requires
        op is CopyFileRange ==> op->CopyFileRange_flags <= u32::MAX,
    ensures
        r == call_of(node, op, shared),
{
    match op {
        Operation::Lookup { name } => Some(Call::Lookup { parent: node, name }),
        Operation::Forget { nlookup } => Some(Call::Forget { ino: node, nlookup }),
        Operation::GetAttr { fh } => Some(Call::GetAttr { ino: node, fh }),
        Operation::SetAttr { attr } => Some(Call::SetAttr { ino: node, attr }),
        Operation::ReadLink => Some(Call::ReadLink { ino: node }),
        Operation::MkNod { name, mode, umask, rdev } => Some(Call::MkNod { parent: node, name, mode, umask, rdev }),
        Operation::MkDir { name, mode, umask } => Some(Call::MkDir { parent: node, name, mode, umask }),
        Operation::Unlink { name } => Some(Call::Unlink { parent: node, name }),
        Operation::RmDir { name } => Some(Call::RmDir { parent: node, name }),
        Operation::SymLink { link_name, target } => Some(Call::SymLink { parent: node, link_name, target }),
        Operation::Rename { name, newparent, newname } => Some(Call::Rename { parent: node, name, newparent, newname, flags: 0 }),
        Operation::Link { inode, newname } => Some(Call::Link { ino: inode, newparent: node, newname }),
        Operation::Open { flags } => Some(Call::Open { ino: node, flags }),
        Operation::Read { fh, offset, size, flags, lock_owner } => Some(Call::Read { ino: node, fh, offset, size, flags, lock_owner }),
        Operation::Write { fh, offset, data, write_flags, flags, lock_owner } => Some(Call::Write { ino: node, fh, offset, data, write_flags, flags, lock_owner }),
        Operation::Flush { fh, lock_owner } => Some(Call::Flush { ino: node, fh, lock_owner }),
        Operation::Release { fh, flags, lock_owner, flush } => Some(Call::Release { ino: node, fh, flags, lock_owner, flush }),
        Operation::FSync { fh, datasync } => Some(Call::FSync { ino: node, fh, datasync }),
        Operation::OpenDir { flags } => Some(Call::OpenDir { ino: node, flags }),
        Operation::ReadDir { fh, offset, size } => Some(Call::ReadDir { ino: node, fh, offset, size }),
        Operation::ReadDirPlus { fh, offset, size } => Some(Call::ReadDirPlus { ino: node, fh, offset, size }),
        Operation::ReleaseDir { fh, flags } => Some(Call::ReleaseDir { ino: node, fh, flags }),
        Operation::FSyncDir { fh, datasync } => Some(Call::FSyncDir { ino: node, fh, datasync }),
        Operation::StatFs => Some(Call::StatFs { ino: node }),
        Operation::SetXAttr { name, value, flags, position } => Some(Call::SetXAttr { ino: node, name, value, flags, position }),
        Operation::GetXAttr { name, size } => Some(Call::GetXAttr { ino: node, name, size }),
        Operation::ListXAttr { size } => Some(Call::ListXAttr { ino: node, size }),
        Operation::RemoveXAttr { name } => Some(Call::RemoveXAttr { ino: node, name }),
        Operation::Access { mask } => Some(Call::Access { ino: node, mask }),
        Operation::Create { name, mode, umask, flags } => Some(Call::Create { parent: node, name, mode, umask, flags }),
        Operation::GetLk { fh, lock_owner, lock } => Some(Call::GetLk { ino: node, fh, lock_owner, lock }),
        Operation::SetLk { fh, lock_owner, lock } => Some(Call::SetLk { ino: node, fh, lock_owner, lock, sleep: false }),
        Operation::SetLkW { fh, lock_owner, lock } => Some(Call::SetLk { ino: node, fh, lock_owner, lock, sleep: true }),
        Operation::BMap { block_size, block } => Some(Call::BMap { ino: node, block_size, block }),
        Operation::IoCtl { fh, flags, command, in_data, out_size, .. } => Some(Call::IoCtl { ino: node, fh, flags, command, in_data, out_size }),
        Operation::Poll { fh, kernel_handle, events, flags } => Some(Call::Poll { ino: node, fh, kernel_handle, events, flags }),
        Operation::BatchForget { nodes } => Some(Call::BatchForget { nodes }),
        Operation::FAllocate { fh, offset, length, mode } => Some(Call::FAllocate { ino: node, fh, offset, length, mode }),
        Operation::Rename2 { parent, name, newparent, newname, flags } => Some(Call::Rename { parent, name, newparent, newname, flags }),
        Operation::Lseek { fh, offset, whence } => Some(Call::Lseek { ino: node, fh, offset, whence }),
        Operation::CopyFileRange { ino_in, fh_in, offset_in, ino_out, fh_out, offset_out, length, flags } => Some(Call::CopyFileRange { ino_in, fh_in, offset_in, ino_out, fh_out, offset_out, length, flags: flags as u32 }),
        Operation::SetVolName { name } => Some(Call::SetVolName { name }),
        Operation::GetXTimes { ino } => Some(Call::GetXTimes { ino: if shared { node } else { ino } }),
        Operation::Exchange { parent, name, newparent, newname, options } => Some(Call::Exchange { parent, name, newparent, newname, options }),
        _ => None,
    }
}

impl<N, D, L> Request<N, D, L> {
    /// The number that tells this request from all others.
    pub fn unique(&self) -> (r: u64)
        ensures
            r == self.unique,
    {
        self.unique
    }

    /// The user who asks.
    pub fn uid(&self) -> (r: u32)
        ensures
            r == self.uid,
    {
        self.uid
    }

    /// The group of the user who asks.
    pub fn gid(&self) -> (r: u32)
        ensures
            r == self.gid,
    {
        self.gid
    }

    /// The process that asks.
    pub fn pid(&self) -> (r: u32)
        ensures
            r == self.pid,
    {
        self.pid
    }

    /// Whether this request greets the file system.
    pub fn is_init(&self) -> (r: bool)
        ensures
            r == (self.operation is Some && self.operation->0 is Init),
    {
        match &self.operation {
            Some(Operation::Init { .. }) => true,
            _ => false,
        }
    }

    /// Why this request is refused, if it is.
    pub fn refused(&self, se: &Session) -> (r: Option<Errno>)
        ensures
            r == refusal(*se, *self),
    {
        let op = match &self.operation {
            None => {
                return Some(Errno::NotImplemented);
            },
            Some(op) => op,
        };
        let kept_out = match se.allowed {
            SessionACL::All => false,
            SessionACL::RootAndOwner => self.uid != se.session_owner && self.uid != 0,
            SessionACL::Owner => self.uid != se.session_owner,
        };
        if kept_out && !op.is_kernels() {
            return Some(Errno::Access);
        }
        if let Operation::Init { major, minor, .. } = op {
            if *major < 7 || *major == 7 && *minor < 6 {
                return Some(Errno::Protocol);
            }
            return None;
        }
        if !se.initialized {
            return Some(Errno::Io);
        }
        if let Operation::Destroy = op {
            return None;
        }
        if se.destroyed {
            return Some(Errno::Io);
        }
        if op.is_unsupported() {
            return Some(Errno::NotImplemented);
        }
        None
    }

    fn decide(self, se: &mut Session, shared: bool) -> (r: Result<Dispatch<N, D, L>, Errno>)
        requires
            fits(*old(se), self),
        ensures
            r == decision(*old(se), self, shared),
            *final(se) == session_after(*old(se), self),
    {
        if let Some(e) = self.refused(se) {
            return Err(e);
        }
        let nodeid: u64 = self.nodeid;
        match self.operation {
            None => Err(Errno::NotImplemented),
            Some(op) => match op {
                Operation::Init { major, minor, capabilities, max_readahead } => {
                    se.proto_major = major;
                    se.proto_minor = minor;
                    Ok(Dispatch::Init { capabilities, max_readahead })
                },
                Operation::Destroy => {
                    se.destroyed = true;
                    Ok(Dispatch::Destroyed)
                },
                op => match method_for(nodeid, op, shared) {
                    Some(call) => Ok(Dispatch::Call(call)),
                    None => Err(Errno::NotImplemented),
                },
            },
        }
    }

    /// Decides what becomes of this request, in a session of its own.
    pub fn dispatch_req(self, se: &mut Session) -> (r: Result<Dispatch<N, D, L>, Errno>)
        requires
            fits(*old(se), self),
        ensures
            r == decision(*old(se), self, false),
            *final(se) == session_after(*old(se), self),
    {
        self.decide(se, false)
    }

    /// Decides what becomes of this request, in a session that tasks share.
    pub fn dispatch_req_shared(self, shared: &mut Session) -> (r: Result<
        Dispatch<N, D, L>,
        Errno,
    >)
        requires
            fits(*old(shared), self),
        ensures
            r == decision(*old(shared), self, true),
            *final(shared) == session_after(*old(shared), self),
    {
        self.decide(shared, true)
    }
}

/// Before the greeting has been answered, no request reaches the file system but
/// the greeting itself.
pub proof fn law_nothing_before_the_greeting<N, D, L>(
    se: Session,
    req: Request<N, D, L>,
    shared: bool,
)
    requires
        !se.initialized,
    ensures
        decision(se, req, shared) matches Ok(d) ==> d is Init,
        session_after(se, req).destroyed == se.destroyed,
{
}

/// After the end no method of the file system is called any more.
pub proof fn law_nothing_after_the_end<N, D, L>(se: Session, req: Request<N, D, L>, shared: bool)
    requires
        se.destroyed,
    ensures
        decision(se, req, shared) matches Ok(d) ==> d is Init || d is Destroyed,
        session_after(se, req).destroyed,
{
}

/// Whoever is kept out is refused, and the session stays as it is, unless the
/// kernel may ask on its own behalf.
pub proof fn law_strangers_are_refused<N, D, L>(
    se: Session,
    req: Request<N, D, L>,
    shared: bool,
)
    requires
        kept_out(se, req.uid),
        req.operation matches Some(op) && !comes_from_kernel(op),
    ensures
        decision(se, req, shared) == Err::<Dispatch<N, D, L>, Errno>(Errno::Access),
        session_after(se, req) == se,
{
}

/// The owner is never kept out, and everybody else is where only the owner is
/// let in.
pub proof fn law_owner_is_let_in(se: Session, uid: u32)
    ensures
        !kept_out(se, se.session_owner),
        se.allowed == SessionACL::Owner && uid != se.session_owner ==> kept_out(se, uid),
        se.allowed == SessionACL::RootAndOwner ==> !kept_out(se, 0),
{
}

/// A request that is refused changes nothing.
pub proof fn law_refused_changes_nothing<N, D, L>(
    se: Session,
    req: Request<N, D, L>,
    shared: bool,
)
    requires
        decision(se, req, shared) is Err,
    ensures
        session_after(se, req) == se,
{
}

/// In a running session every operation that is supported and not refused
/// reaches a method of the file system, and both kinds of session take it the
/// same way, but for the extended times.
pub proof fn law_every_operation_is_answered<N, D, L>(se: Session, req: Request<N, D, L>)
    requires
        se.initialized,
        !se.destroyed,
        req.operation matches Some(op) && !(op is Init) && !(op is Destroy) && !unsupported(op),
        !kept_out(se, req.uid),
    ensures
        call_of(req.nodeid, req.operation->0, false) is Some,
        decision(se, req, false) == Ok::<Dispatch<N, D, L>, Errno>(
            Dispatch::Call(call_of(req.nodeid, req.operation->0, false)->0),
        ),
        !(req.operation->0 is GetXTimes) ==> decision(se, req, true) == decision(se, req, false),
{
}

} // verus!
