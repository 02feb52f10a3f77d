//! What the kernel asks for is what the file system is asked: nothing of a request is lost
//! on the way, and only what must be is refused.

use crate::errno::Errno;
use crate::fuse::dispatch;
use crate::fuse::dispatch::{Call, Dispatch, Operation, Request, Session, SessionACL};
use vstd::prelude::*;

verus! {

/// The operation that a call of a method answers, as its arguments tell.
pub open spec fn asked<N, D, L>(c: Call<N, D, L>) -> Operation<N, D, L> {
    match c {
        Call::Lookup { name, .. } => Operation::Lookup { name },
        Call::Forget { nlookup, .. } => Operation::Forget { nlookup },
        Call::GetAttr { fh, .. } => Operation::GetAttr { fh },
        Call::SetAttr { attr, .. } => Operation::SetAttr { attr },
        Call::ReadLink { .. } => Operation::ReadLink,
        Call::MkNod { name, mode, umask, rdev, .. } => Operation::MkNod { name, mode, umask, rdev },
        Call::MkDir { name, mode, umask, .. } => Operation::MkDir { name, mode, umask },
        Call::Unlink { name, .. } => Operation::Unlink { name },
        Call::RmDir { name, .. } => Operation::RmDir { name },
        Call::SymLink { link_name, target, .. } => Operation::SymLink { link_name, target },
        Call::Open { flags, .. } => Operation::Open { flags },
        Call::Read { fh, offset, size, flags, lock_owner, .. } => Operation::Read { fh, offset, size, flags, lock_owner },
        Call::Write { fh, offset, data, write_flags, flags, lock_owner, .. } => Operation::Write { fh, offset, data, write_flags, flags, lock_owner },
        Call::Flush { fh, lock_owner, .. } => Operation::Flush { fh, lock_owner },
        Call::Release { fh, flags, lock_owner, flush, .. } => Operation::Release { fh, flags, lock_owner, flush },
        Call::FSync { fh, datasync, .. } => Operation::FSync { fh, datasync },
        Call::OpenDir { flags, .. } => Operation::OpenDir { flags },
        Call::ReadDir { fh, offset, size, .. } => Operation::ReadDir { fh, offset, size },
        Call::ReadDirPlus { fh, offset, size, .. } => Operation::ReadDirPlus { fh, offset, size },
        Call::ReleaseDir { fh, flags, .. } => Operation::ReleaseDir { fh, flags },
        Call::FSyncDir { fh, datasync, .. } => Operation::FSyncDir { fh, datasync },
        Call::StatFs { .. } => Operation::StatFs,
        Call::SetXAttr { name, value, flags, position, .. } => Operation::SetXAttr { name, value, flags, position },
        Call::GetXAttr { name, size, .. } => Operation::GetXAttr { name, size },
        Call::ListXAttr { size, .. } => Operation::ListXAttr { size },
        Call::RemoveXAttr { name, .. } => Operation::RemoveXAttr { name },
        Call::Access { mask, .. } => Operation::Access { mask },
        Call::Create { name, mode, umask, flags, .. } => Operation::Create { name, mode, umask, flags },
        Call::GetLk { fh, lock_owner, lock, .. } => Operation::GetLk { fh, lock_owner, lock },
        Call::BMap { block_size, block, .. } => Operation::BMap { block_size, block },
        Call::Poll { fh, kernel_handle, events, flags, .. } => Operation::Poll { fh, kernel_handle, events, flags },
        Call::BatchForget { nodes } => Operation::BatchForget { nodes },
        Call::FAllocate { fh, offset, length, mode, .. } => Operation::FAllocate { fh, offset, length, mode },
        Call::Lseek { fh, offset, whence, .. } => Operation::Lseek { fh, offset, whence },
        Call::SetVolName { name } => Operation::SetVolName { name },
        Call::Exchange { parent, name, newparent, newname, options } => Operation::Exchange { parent, name, newparent, newname, options },
        Call::Lookup { name, .. } => Operation::Lookup { name },
        Call::Forget { nlookup, .. } => Operation::Forget { nlookup },
        Call::GetAttr { fh, .. } => Operation::GetAttr { fh },
        Call::SetAttr { attr, .. } => Operation::SetAttr { attr },
        Call::ReadLink { .. } => Operation::ReadLink,
        Call::MkNod { name, mode, umask, rdev, .. } => Operation::MkNod { name, mode, umask, rdev },
        Call::MkDir { name, mode, umask, .. } => Operation::MkDir { name, mode, umask },
        Call::Unlink { name, .. } => Operation::Unlink { name },
        Call::RmDir { name, .. } => Operation::RmDir { name },
        Call::SymLink { link_name, target, .. } => Operation::SymLink { link_name, target },
        Call::Open { flags, .. } => Operation::Open { flags },
        Call::Read { fh, offset, size, flags, lock_owner, .. } => Operation::Read { fh, offset, size, flags, lock_owner },
        Call::Write { fh, offset, data, write_flags, flags, lock_owner, .. } => Operation::Write { fh, offset, data, write_flags, flags, lock_owner },
        Call::Flush { fh, lock_owner, .. } => Operation::Flush { fh, lock_owner },
        Call::Release { fh, flags, lock_owner, flush, .. } => Operation::Release { fh, flags, lock_owner, flush },
        Call::FSync { fh, datasync, .. } => Operation::FSync { fh, datasync },
        Call::OpenDir { flags, .. } => Operation::OpenDir { flags },
        Call::ReadDir { fh, offset, size, .. } => Operation::ReadDir { fh, offset, size },
        Call::ReadDirPlus { fh, offset, size, .. } => Operation::ReadDirPlus { fh, offset, size },
        Call::ReleaseDir { fh, flags, .. } => Operation::ReleaseDir { fh, flags },
        Call::FSyncDir { fh, datasync, .. } => Operation::FSyncDir { fh, datasync },
        Call::StatFs { .. } => Operation::StatFs,
        Call::SetXAttr { name, value, flags, position, .. } => Operation::SetXAttr { name, value, flags, position },
        Call::GetXAttr { name, size, .. } => Operation::GetXAttr { name, size },
        Call::ListXAttr { size, .. } => Operation::ListXAttr { size },
        Call::RemoveXAttr { name, .. } => Operation::RemoveXAttr { name },
        Call::Access { mask, .. } => Operation::Access { mask },
        Call::Create { name, mode, umask, flags, .. } => Operation::Create { name, mode, umask, flags },
        Call::GetLk { fh, lock_owner, lock, .. } => Operation::GetLk { fh, lock_owner, lock },
        Call::BMap { block_size, block, .. } => Operation::BMap { block_size, block },
        Call::Poll { fh, kernel_handle, events, flags, .. } => Operation::Poll { fh, kernel_handle, events, flags },
        Call::BatchForget { nodes } => Operation::BatchForget { nodes },
        Call::FAllocate { fh, offset, length, mode, .. } => Operation::FAllocate { fh, offset, length, mode },
        Call::Lseek { fh, offset, whence, .. } => Operation::Lseek { fh, offset, whence },
        Call::SetVolName { name } => Operation::SetVolName { name },
        Call::Exchange { parent, name, newparent, newname, options } => Operation::Exchange { parent, name, newparent, newname, options },
        Call::Rename { name, newparent, newname, .. } => Operation::Rename {
            name,
            newparent,
            newname,
        },
        Call::Link { ino, newname, .. } => Operation::Link { inode: ino, newname },
        Call::SetLk { fh, lock_owner, lock, sleep, .. } => if sleep {
            Operation::SetLkW { fh, lock_owner, lock }
        } else {
            Operation::SetLk { fh, lock_owner, lock }
        },
        Call::IoCtl { fh, flags, command, in_data, out_size, .. } => Operation::IoCtl {
            fh,
            unrestricted: false,
            flags,
            command,
            in_data,
            out_size,
        },
        Call::CopyFileRange {
            ino_in,
            fh_in,
            offset_in,
            ino_out,
            fh_out,
            offset_out,
            length,
            flags,
        } => Operation::CopyFileRange {
            ino_in,
            fh_in,
            offset_in,
            ino_out,
            fh_out,
            offset_out,
            length,
            flags: flags as u64,
        },
        Call::GetXTimes { ino } => Operation::GetXTimes { ino },
    }
}

/// The inode of the request that a call of a method answers, where its arguments tell.
pub open spec fn asked_of<N, D, L>(c: Call<N, D, L>) -> Option<u64> {
    match c {
        Call::Lookup { parent, .. } => Some(parent),
        Call::Forget { ino, .. } => Some(ino),
        Call::GetAttr { ino, .. } => Some(ino),
        Call::SetAttr { ino, .. } => Some(ino),
        Call::ReadLink { ino, .. } => Some(ino),
        Call::MkNod { parent, .. } => Some(parent),
        Call::MkDir { parent, .. } => Some(parent),
        Call::Unlink { parent, .. } => Some(parent),
        Call::RmDir { parent, .. } => Some(parent),
        Call::SymLink { parent, .. } => Some(parent),
        Call::Open { ino, .. } => Some(ino),
        Call::Read { ino, .. } => Some(ino),
        Call::Write { ino, .. } => Some(ino),
        Call::Flush { ino, .. } => Some(ino),
        Call::Release { ino, .. } => Some(ino),
        Call::FSync { ino, .. } => Some(ino),
        Call::OpenDir { ino, .. } => Some(ino),
        Call::ReadDir { ino, .. } => Some(ino),
        Call::ReadDirPlus { ino, .. } => Some(ino),
        Call::ReleaseDir { ino, .. } => Some(ino),
        Call::FSyncDir { ino, .. } => Some(ino),
        Call::StatFs { ino, .. } => Some(ino),
        Call::SetXAttr { ino, .. } => Some(ino),
        Call::GetXAttr { ino, .. } => Some(ino),
        Call::ListXAttr { ino, .. } => Some(ino),
        Call::RemoveXAttr { ino, .. } => Some(ino),
        Call::Access { ino, .. } => Some(ino),
        Call::Create { parent, .. } => Some(parent),
        Call::GetLk { ino, .. } => Some(ino),
        Call::BMap { ino, .. } => Some(ino),
        Call::Poll { ino, .. } => Some(ino),
        Call::FAllocate { ino, .. } => Some(ino),
        Call::Lseek { ino, .. } => Some(ino),
        Call::Lookup { parent, .. } => Some(parent),
        Call::Forget { ino, .. } => Some(ino),
        Call::GetAttr { ino, .. } => Some(ino),
        Call::SetAttr { ino, .. } => Some(ino),
        Call::ReadLink { ino, .. } => Some(ino),
        Call::MkNod { parent, .. } => Some(parent),
        Call::MkDir { parent, .. } => Some(parent),
        Call::Unlink { parent, .. } => Some(parent),
        Call::RmDir { parent, .. } => Some(parent),
        Call::SymLink { parent, .. } => Some(parent),
        Call::Open { ino, .. } => Some(ino),
        Call::Read { ino, .. } => Some(ino),
        Call::Write { ino, .. } => Some(ino),
        Call::Flush { ino, .. } => Some(ino),
        Call::Release { ino, .. } => Some(ino),
        Call::FSync { ino, .. } => Some(ino),
        Call::OpenDir { ino, .. } => Some(ino),
        Call::ReadDir { ino, .. } => Some(ino),
        Call::ReadDirPlus { ino, .. } => Some(ino),
        Call::ReleaseDir { ino, .. } => Some(ino),
        Call::FSyncDir { ino, .. } => Some(ino),
        Call::StatFs { ino, .. } => Some(ino),
        Call::SetXAttr { ino, .. } => Some(ino),
        Call::GetXAttr { ino, .. } => Some(ino),
        Call::ListXAttr { ino, .. } => Some(ino),
        Call::RemoveXAttr { ino, .. } => Some(ino),
        Call::Access { ino, .. } => Some(ino),
        Call::Create { parent, .. } => Some(parent),
        Call::GetLk { ino, .. } => Some(ino),
        Call::BMap { ino, .. } => Some(ino),
        Call::Poll { ino, .. } => Some(ino),
        Call::FAllocate { ino, .. } => Some(ino),
        Call::Lseek { ino, .. } => Some(ino),
        Call::Rename { parent, .. } => Some(parent),
        Call::Link { newparent, .. } => Some(newparent),
        Call::SetLk { ino, .. } => Some(ino),
        Call::IoCtl { ino, .. } => Some(ino),
        _ => None,
    }
}

/// Each operation reaches the method that is meant for it, on the inode that the request
/// names and with all that the kernel has said: from the call one can tell what was asked
/// for. A move with flags reaches the same method as one without, between the directories
/// that it names. The flags of a copy between files have to fit.
pub proof fn law_nothing_is_lost<N, D, L>(node: u64, op: Operation<N, D, L>, shared: bool)
    requires
        !(op is Init) && !(op is Destroy) && !dispatch::unsupported(op),
        op matches Operation::CopyFileRange { flags, .. } ==> flags <= u32::MAX,
    ensures
        dispatch::call_of(node, op, shared) is Some,
        !(op is Rename2) && !(op is GetXTimes) ==> asked(
            dispatch::call_of(node, op, shared)->0,
        ) == op,
        !(op is Rename2) ==> (asked_of(dispatch::call_of(node, op, shared)->0) matches Some(n)
            ==> n == node),
        asked_of(dispatch::call_of(node, op, shared)->0) is None <==> op is BatchForget
            || op is CopyFileRange || op is SetVolName || op is GetXTimes || op is Exchange,
        op matches Operation::Rename { .. } ==> dispatch::call_of(node, op, shared)->0->Rename_flags
            == 0,
        op matches Operation::Rename2 { parent, name, newparent, newname, flags }
            ==> dispatch::call_of(node, op, shared) == Some(
            Call::<N, D, L>::Rename { parent, name, newparent, newname, flags },
        ),
        op matches Operation::GetXTimes { ino } ==> dispatch::call_of(node, op, shared) == Some(
            Call::<N, D, L>::GetXTimes {
                ino: if shared {
                    node
                } else {
                    ino
                },
            },
        ),
{
}

/// In a session for all nobody is kept out; in one for root and the owner all but these
/// two are; in one for the owner all but the owner are.
pub proof fn law_who_is_kept_out(se: Session, uid: u32)
    ensures
        dispatch::kept_out(se, uid) <==> match se.allowed {
            SessionACL::All => false,
            SessionACL::RootAndOwner => uid != 0 && uid != se.session_owner,
            SessionACL::Owner => uid != se.session_owner,
        },
{
}

/// A greeting is taken from the version 7.6 of the protocol on, whatever has been said
/// before; the session remembers the version. Its end is taken once it has been greeted.
/// An operation that nobody knows, or that is not supported, is not implemented.
pub proof fn law_greeting_and_end<N, D, L>(
    se: Session,
    req: Request<N, D, L>,
    shared: bool,
    major: u32,
    minor: u32,
    capabilities: u64,
    max_readahead: u32,
)
    ensures
        req.operation == Some(
            Operation::<N, D, L>::Init { major, minor, capabilities, max_readahead },
        ) ==> {
            let recent = major > 7 || major == 7 && minor >= 6;
            &&& recent ==> dispatch::decision(se, req, shared) == Ok::<Dispatch<N, D, L>, Errno>(
                Dispatch::Init { capabilities, max_readahead },
            ) && dispatch::session_after(se, req) == (Session {
                proto_major: major,
                proto_minor: minor,
                ..se
            })
            &&& !recent ==> dispatch::decision(se, req, shared) == Err::<
                Dispatch<N, D, L>,
                Errno,
            >(Errno::Protocol)
        },
        req.operation == Some(Operation::<N, D, L>::Destroy) && se.initialized ==> {
            &&& dispatch::decision(se, req, shared) == Ok::<Dispatch<N, D, L>, Errno>(
                Dispatch::Destroyed,
            )
            &&& dispatch::session_after(se, req) == (Session { destroyed: true, ..se })
        },
        req.operation is None ==> dispatch::decision(se, req, shared) == Err::<
            Dispatch<N, D, L>,
            Errno,
        >(Errno::NotImplemented),
        (req.operation matches Some(op) && (op is Interrupt || op is NotifyReply || op is CuseInit))
            && se.initialized && !se.destroyed && !dispatch::kept_out(se, req.uid)
            ==> dispatch::decision(se, req, shared) == Err::<Dispatch<N, D, L>, Errno>(
            Errno::NotImplemented,
        ),
{
}

/// Reading, writing, syncing, releasing, forgetting and listing may come from the kernel
/// on nobody's behalf, and are let through for everybody; nothing else is.
pub proof fn law_kernel_asks_on_its_own_behalf<N, D, L>(
    se: Session,
    req: Request<N, D, L>,
    shared: bool,
)
    requires
        se.initialized,
        !se.destroyed,
        dispatch::kept_out(se, req.uid),
        req.operation matches Some(op) && !(op is Init) && !(op is Destroy)
            && !dispatch::unsupported(op),
    ensures
        ({
            let op = req.operation->0;
            let own = op is Read || op is Write || op is ReadDir || op is ReadDirPlus || op is FSync
                || op is FSyncDir || op is Release || op is ReleaseDir || op is Forget
                || op is BatchForget;
            &&& dispatch::decision(se, req, shared) is Ok <==> own
            &&& !own ==> dispatch::decision(se, req, shared) == Err::<Dispatch<N, D, L>, Errno>(
                Errno::Access,
            )
        }),
{
}

} // verus!
