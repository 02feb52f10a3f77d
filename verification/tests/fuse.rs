//! What the kernel asks, and what it is answered.

use agentfs::errno::Errno;
use agentfs::fs::types::{FsError, Stats};
use agentfs::fuse::adapter::{
    wanted_capabilities, AgentFSFuse, Capability, FuseJob, FuseMountOptions, Job, MountOption,
};
use agentfs::fuse::calls::{
    count_blocks, fillattr, Answer, Edit, FileType, FsCall, FsReply, FsRequest, FsResponse,
    ListedEntry, RequestOutcome,
};
use agentfs::fuse::dispatch::{Call, Dispatch, Operation, Request, Session, SessionACL};
use agentfs::plan::Step;

type Op = Operation<String, Vec<u8>, Vec<u64>>;
type Req = Request<String, Vec<u8>, Vec<u64>>;

fn ask(uid: u32, operation: Option<Op>) -> Req {
    Request { unique: 7, uid, gid: 8, pid: 9, nodeid: 3, operation }
}

fn init(major: u32, minor: u32) -> Op {
    Operation::Init { major, minor, capabilities: 5, max_readahead: 6 }
}

fn running(allowed: SessionACL) -> Session {
    let mut se = Session::new(allowed, 1000);
    assert!(ask(1000, Some(init(7, 31))).dispatch_req(&mut se).is_ok());
    assert_eq!(se.finish_init(Ok(())), Ok(()));
    se
}

#[test]
fn greeting_comes_first() {
    let mut se = Session::new(SessionACL::Owner, 1000);
    let early = ask(1000, Some(Operation::StatFs)).dispatch_req(&mut se);
    assert!(matches!(early, Err(Errno::Io)));
    let old = ask(1000, Some(init(7, 5))).dispatch_req(&mut se);
    assert!(matches!(old, Err(Errno::Protocol)));
    assert_eq!((se.proto_major, se.proto_minor), (0, 0));
    let good = ask(1000, Some(init(7, 6))).dispatch_req(&mut se);
    assert!(matches!(good, Ok(Dispatch::Init { capabilities: 5, max_readahead: 6 })));
    assert_eq!((se.proto_major, se.proto_minor), (7, 6));
    assert!(!se.initialized);
    assert_eq!(se.finish_init(Err(38)), Err(38));
    assert!(!se.initialized);
    assert_eq!(se.finish_init(Ok(())), Ok(()));
    assert!(se.initialized);
}

#[test]
fn nothing_is_called_after_the_end() {
    let mut se = running(SessionACL::All);
    assert!(matches!(
        ask(1, Some(Operation::Destroy)).dispatch_req(&mut se),
        Ok(Dispatch::Destroyed)
    ));
    assert!(se.destroyed);
    assert!(matches!(ask(1, Some(Operation::StatFs)).dispatch_req(&mut se), Err(Errno::Io)));
}

#[test]
fn strangers_are_kept_out() {
    let access = || Some(Operation::Access { mask: 4 });
    let refused = |allowed: SessionACL, uid: u32| {
        let mut se = running(allowed);
        match ask(uid, access()).dispatch_req(&mut se) {
            Err(Errno::Access) => true,
            Ok(Dispatch::Call(Call::Access { ino: 3, mask: 4 })) => false,
            _ => panic!("neither refused nor called"),
        }
    };
    assert!(!refused(SessionACL::All, 5));
    assert!(refused(SessionACL::Owner, 0));
    assert!(refused(SessionACL::RootAndOwner, 5));
    assert!(!refused(SessionACL::RootAndOwner, 0));
    assert!(!refused(SessionACL::Owner, 1000));
    let mut se = running(SessionACL::Owner);
    let read = Operation::Read { fh: 1, offset: 0, size: 2, flags: 0, lock_owner: None };
    assert!(matches!(ask(5, Some(read)).dispatch_req(&mut se), Ok(Dispatch::Call(_))));
}

#[test]
fn operations_nobody_answers() {
    let mut se = running(SessionACL::All);
    for op in [None, Some(Operation::Interrupt), Some(Operation::NotifyReply), Some(Operation::CuseInit)]
    {
        assert!(matches!(ask(1, op).dispatch_req(&mut se), Err(Errno::NotImplemented)));
    }
    let ioctl = |unrestricted: bool| {
        Some(Operation::IoCtl {
            fh: 1,
            unrestricted,
            flags: 0,
            command: 2,
            in_data: vec![1],
            out_size: 3,
        })
    };
    assert!(matches!(ask(1, ioctl(true)).dispatch_req(&mut se), Err(Errno::NotImplemented)));
    assert!(matches!(
        ask(1, ioctl(false)).dispatch_req(&mut se),
        Ok(Dispatch::Call(Call::IoCtl { ino: 3, command: 2, out_size: 3, .. }))
    ));
}

#[test]
fn operations_reach_their_methods() {
    let mut se = running(SessionACL::All);
    let mut call = |op: Op| match ask(1, Some(op)).dispatch_req(&mut se) {
        Ok(Dispatch::Call(c)) => c,
        _ => panic!("not called"),
    };
    assert!(matches!(
        call(Operation::Link { inode: 4, newname: "n".to_string() }),
        Call::Link { ino: 4, newparent: 3, .. }
    ));
    assert!(matches!(
        call(Operation::Rename {
            name: "a".to_string(),
            newparent: 9,
            newname: "b".to_string()
        }),
        Call::Rename { parent: 3, newparent: 9, flags: 0, .. }
    ));
    let lock = agentfs::fuse::dispatch::LockRange { start: 0, end: 1, typ: 2, pid: 3 };
    assert!(matches!(
        call(Operation::SetLkW { fh: 1, lock_owner: 2, lock }),
        Call::SetLk { sleep: true, .. }
    ));
    assert!(matches!(
        call(Operation::SetLk { fh: 1, lock_owner: 2, lock }),
        Call::SetLk { sleep: false, .. }
    ));
    assert!(matches!(call(Operation::GetXTimes { ino: 9 }), Call::GetXTimes { ino: 9 }));
    let mut shared = running(SessionACL::All);
    assert!(matches!(
        ask(1, Some(Operation::GetXTimes { ino: 9 })).dispatch_req_shared(&mut shared),
        Ok(Dispatch::Call(Call::GetXTimes { ino: 3 }))
    ));
}

#[test]
fn requests_say_who_asks() {
    let r = ask(1000, Some(init(7, 31)));
    assert_eq!((r.unique(), r.uid(), r.gid(), r.pid()), (7, 1000, 8, 9));
    assert!(r.is_init());
    assert!(!ask(1, None).is_init());
}

fn stats(ino: i64, mode: u32) -> Stats {
    Stats { ino, mode, nlink: 1, uid: 1, gid: 2, size: 513, atime: 3, mtime: 4, ctime: 5 }
}

const DIR: u32 = 0o040755;
const FILE: u32 = 0o100640;

/// Runs a job over replies, and returns what was asked and how it ended.
fn drive(job: &FuseJob, replies: Vec<FsResponse>) -> (Vec<FsRequest>, RequestOutcome) {
    let mut given: Vec<FsResponse> = Vec::new();
    let mut asked = Vec::new();
    let mut coming = replies.into_iter();
    loop {
        match job.run(500, 600, &given) {
            Step::Done(o) => return (asked, o),
            Step::Ask(q) => {
                asked.push(q);
                given.push(coming.next().expect("another reply"));
            }
        }
    }
}

fn fails_with(job: &FuseJob, replies: Vec<FsResponse>) -> Errno {
    match drive(job, replies).1.answer {
        Answer::Error(e) => e,
        _ => panic!("no error"),
    }
}

#[test]
fn attributes_are_those_of_the_owner() {
    let a = fillattr(&stats(9, FILE), 500, 600);
    assert_eq!((a.ino, a.size, a.blocks, a.perm), (9, 513, 2, 0o640));
    assert_eq!((a.uid, a.gid, a.nlink, a.blksize), (500, 600, 1, 512));
    assert_eq!((a.atime, a.mtime, a.ctime, a.crtime), (3, 4, 5, 0));
    assert_eq!(a.kind, FileType::RegularFile);
    assert_eq!(fillattr(&stats(9, DIR), 0, 0).kind, FileType::Directory);
    assert_eq!(fillattr(&stats(9, 0o120777), 0, 0).kind, FileType::Symlink);
    assert_eq!((count_blocks(0), count_blocks(1), count_blocks(512), count_blocks(513)), (0, 1, 1, 2));
}

#[test]
fn what_is_looked_up_is_known() {
    let mut fs: AgentFSFuse<u8> = AgentFSFuse::mounted(500, 600);
    let job = fs.lookup(1, b"a.txt").unwrap();
    let (asked, out) = drive(&job, vec![FsReply::Stats(Some(stats(9, FILE)))]);
    assert!(matches!(&asked[0], FsCall::Lstat { path } if path == "/a.txt"));
    assert!(matches!(out.answer, Answer::Entry(a) if a.ino == 9));
    fs.apply(&out.edits);
    assert_eq!(fs.get_path(9), Some("/a.txt".to_string()));
    assert!(fs.getattr(9).is_ok());
    assert_eq!(fs.lookup_path(1, b"x"), Some("/x".to_string()));
    assert_eq!(fs.lookup_path(9, b"x"), Some("/a.txt/x".to_string()));
    assert!(matches!(fs.lookup(1, &[0xff, 0xfe]), Err(Errno::NoEntry)));
    assert!(matches!(fs.lookup(77, b"x"), Err(Errno::NoEntry)));
    assert_eq!(fails_with(&job, vec![FsReply::Stats(None)]), Errno::NoEntry);
    assert_eq!(fails_with(&job, vec![FsReply::Failed(None)]), Errno::Io);
}

#[test]
fn size_changes_go_through_the_file() {
    let mut fs: AgentFSFuse<u8> = AgentFSFuse::mounted(0, 0);
    fs.add_path(9, "/f".to_string());
    let fh = fs.register(1);
    let ok = || vec![FsReply::Done, FsReply::Stats(Some(stats(9, FILE)))];
    let (asked, out) = drive(&fs.setattr(9, Some(4), Some(fh)).unwrap(), ok());
    assert!(matches!(&asked[0], FsCall::Truncate { fh: 1, size: 4 }));
    assert!(matches!(out.answer, Answer::Attr(_)));
    let three = vec![FsReply::Done, FsReply::Done, FsReply::Stats(Some(stats(9, FILE)))];
    let (asked, _) = drive(&fs.setattr(9, Some(4), None).unwrap(), three);
    assert!(matches!(&asked[0], FsCall::Open { path } if path == "/f"));
    assert!(matches!(&asked[1], FsCall::TruncateOpened { size: 4 }));
    let (asked, _) =
        drive(&fs.setattr(9, None, None).unwrap(), vec![FsReply::Stats(Some(stats(9, FILE)))]);
    assert!(matches!(&asked[0], FsCall::Stat { .. }));
    assert!(matches!(fs.setattr(8, None, None), Err(Errno::NoEntry)));
}

fn listed(names: &[&str]) -> FsResponse {
    FsReply::Entries(Some(
        names
            .iter()
            .enumerate()
            .map(|(i, n)| ListedEntry { name: n.to_string(), stats: stats(20 + i as i64, FILE) })
            .collect(),
    ))
}

#[test]
fn listings_go_on_where_they_stopped() {
    let fs: AgentFSFuse<u8> = AgentFSFuse::mounted(0, 0);
    let lines = |offset: i64| {
        let (_, out) = drive(&fs.readdir(1, offset).unwrap(), vec![listed(&["a", "b"])]);
        match out.answer {
            Answer::Directory(d) => {
                d.into_iter().map(|e| (e.name, e.ino, e.offset)).collect::<Vec<_>>()
            }
            _ => panic!("no listing"),
        }
    };
    let all = lines(0);
    assert_eq!(
        all,
        vec![
            (".".to_string(), 1, 1),
            ("..".to_string(), 1, 2),
            ("a".to_string(), 20, 3),
            ("b".to_string(), 21, 4),
        ]
    );
    for n in 0..4 {
        assert_eq!(lines(n as i64), all[n..].to_vec());
    }
    assert!(lines(4).is_empty());
}

#[test]
fn listing_with_attributes() {
    let mut fs: AgentFSFuse<u8> = AgentFSFuse::mounted(0, 0);
    fs.add_path(5, "/d/e".to_string());
    let replies = vec![
        listed(&["a", "b"]),
        FsReply::Stats(Some(stats(5, DIR))),
        FsReply::Stats(Some(stats(4, DIR))),
    ];
    let (asked, out) = drive(&fs.readdirplus(5, 0).unwrap(), replies);
    assert!(matches!(&asked[2], FsCall::Stat { path } if path == "/d"));
    let lines = match out.answer {
        Answer::DirectoryPlus(d) => d,
        _ => panic!("no listing"),
    };
    let seen: Vec<_> = lines.iter().map(|l| (l.name.as_str(), l.ino, l.offset)).collect();
    assert_eq!(seen, vec![(".", 5, 1), ("..", 4, 2), ("a", 20, 3), ("b", 21, 4)]);
    fs.hand_out(&lines, 3);
    assert_eq!(fs.get_path(20), Some("/d/e/a".to_string()));
    assert_eq!(fs.get_path(21), None);
}

#[test]
fn directories_above_are_found() {
    let mut fs: AgentFSFuse<u8> = AgentFSFuse::mounted(0, 0);
    fs.add_path(5, "/d/e".to_string());
    let job = fs.readdir(5, 0).unwrap();
    let (asked, out) = drive(&job, vec![listed(&[]), FsReply::Stats(Some(stats(4, DIR)))]);
    assert!(matches!(&asked[1], FsCall::Stat { path } if path == "/d"));
    assert!(matches!(out.answer, Answer::Directory(d) if d[1].ino == 4));
    let (_, out) = drive(&job, vec![listed(&[]), FsReply::Stats(None)]);
    assert!(matches!(out.answer, Answer::Directory(d) if d[1].ino == 1));
    assert_eq!(fails_with(&job, vec![FsReply::Entries(None)]), Errno::NoEntry);
}

#[test]
fn directories_are_made_and_removed() {
    let mut fs: AgentFSFuse<u8> = AgentFSFuse::mounted(0, 0);
    let (_, out) = drive(
        &fs.mkdir(1, b"d").unwrap(),
        vec![FsReply::Done, FsReply::Stats(Some(stats(7, DIR)))],
    );
    fs.apply(&out.edits);
    assert_eq!(fs.get_path(7), Some("/d".to_string()));
    let job = fs.rmdir(1, b"d").unwrap();
    let dir = || FsReply::Stats(Some(stats(7, DIR)));
    let (asked, out) = drive(&job, vec![dir(), FsReply::Names(Some(vec![])), FsReply::Done]);
    assert!(matches!(&asked[2], FsCall::Remove { path } if path == "/d"));
    assert!(matches!(out.answer, Answer::Done));
    fs.apply(&out.edits);
    assert_eq!(fs.get_path(7), None);
    let full = FsReply::Names(Some(vec!["x".to_string()]));
    assert_eq!(fails_with(&job, vec![dir(), full]), Errno::NotEmpty);
    assert_eq!(fails_with(&job, vec![FsReply::Stats(Some(stats(7, FILE)))]), Errno::NotDirectory);
    assert_eq!(fails_with(&job, vec![FsReply::Stats(None)]), Errno::NoEntry);
}

#[test]
fn files_are_unlinked_but_no_directories() {
    let fs: AgentFSFuse<u8> = AgentFSFuse::mounted(0, 0);
    let job = fs.unlink(1, b"f").unwrap();
    assert_eq!(fails_with(&job, vec![FsReply::Stats(Some(stats(7, DIR)))]), Errno::IsDirectory);
    let (_, out) = drive(&job, vec![FsReply::Stats(Some(stats(7, FILE))), FsReply::Done]);
    assert!(matches!(&out.edits[0], Edit::Remove { ino: 7 }));
}

#[test]
fn created_file_is_open() {
    let mut fs: AgentFSFuse<&str> = AgentFSFuse::mounted(0, 0);
    let (asked, out) = drive(
        &fs.create(1, b"f").unwrap(),
        vec![FsReply::Done, FsReply::Stats(Some(stats(7, FILE))), FsReply::Done],
    );
    assert!(matches!(&asked[0], FsCall::WriteFile { path, data } if path == "/f" && data.is_empty()));
    assert!(matches!(out.answer, Answer::Create(a) if a.ino == 7));
    let fh = fs.register("file");
    assert_eq!(fh, 1);
    assert_eq!(fs.register("other"), 2);
    assert!(fs.is_open(fh));
    assert_eq!(fs.open_file(fh), Some(&"file"));
    let (asked, out) =
        drive(&fs.write(fh, 3, b"abc".to_vec()).unwrap(), vec![FsReply::Done]);
    assert!(matches!(&asked[0], FsCall::Pwrite { fh: 1, offset: 3, data } if data == b"abc"));
    assert!(matches!(out.answer, Answer::Written(3)));
    let (_, out) =
        drive(&fs.read(fh, 0, 9).unwrap(), vec![FsReply::Bytes(b"hi".to_vec())]);
    assert!(matches!(out.answer, Answer::Data(d) if d == b"hi"));
    assert!(matches!(fs.flush(fh), Answer::Done));
    assert!(matches!(drive(&fs.fsync(fh).unwrap(), vec![FsReply::Done]).1.answer, Answer::Done));
    assert!(matches!(fs.release(fh), Answer::Done));
    assert!(!fs.is_open(fh));
    assert!(matches!(fs.read(fh, 0, 9), Err(Errno::BadHandle)));
    assert!(matches!(fs.write(fh, 0, vec![]), Err(Errno::BadHandle)));
    assert!(matches!(fs.fsync(fh), Err(Errno::BadHandle)));
    assert!(matches!(fs.flush(fh), Answer::Error(Errno::BadHandle)));
}

#[test]
fn links_are_made_and_read() {
    let mut fs: AgentFSFuse<u8> = AgentFSFuse::mounted(0, 0);
    let (asked, out) = drive(
        &fs.symlink(1, b"l", b"to/there").unwrap(),
        vec![FsReply::Done, FsReply::Stats(Some(stats(8, 0o120777)))],
    );
    assert!(matches!(&asked[0], FsCall::Symlink { target, path } if target == "to/there" && path == "/l"));
    fs.apply(&out.edits);
    let target = FsReply::Target(Some("to/there".to_string()));
    let (_, out) = drive(&fs.readlink(8).unwrap(), vec![target]);
    assert!(matches!(out.answer, Answer::Target(t) if t == "to/there"));
    assert_eq!(fails_with(&fs.readlink(8).unwrap(), vec![FsReply::Target(None)]), Errno::NoEntry);
}

#[test]
fn moved_entries_keep_their_inode() {
    let mut fs: AgentFSFuse<u8> = AgentFSFuse::mounted(0, 0);
    fs.add_path(7, "/a".to_string());
    fs.add_path(8, "/b".to_string());
    let job = fs.rename(1, b"a", 1, b"b").unwrap();
    let found = |i: i64| FsReply::Stats(Some(stats(i, FILE)));
    let (_, out) = drive(&job, vec![found(7), found(8), FsReply::Done]);
    fs.apply(&out.edits);
    assert_eq!(fs.get_path(7), Some("/b".to_string()));
    assert_eq!(fs.get_path(8), None);
    let no = FsReply::Failed(Some(FsError::NotEmpty));
    assert_eq!(fails_with(&job, vec![found(7), found(8), no]), Errno::NotEmpty);
    assert_eq!(fails_with(&job, vec![found(7), found(8), FsReply::Failed(None)]), Errno::Io);
}

#[test]
fn space_is_what_is_not_used() {
    let fs: AgentFSFuse<u8> = AgentFSFuse::mounted(0, 0);
    let used = FsReply::Usage { inodes: 3, bytes_used: 4097 };
    let (_, out) = drive(&fs.statfs(), vec![used]);
    match out.answer {
        Answer::Space(s) => {
            assert_eq!((s.blocks, s.free_blocks), (1073741824, 1073741822));
            assert_eq!(s.available_blocks, s.free_blocks);
            assert_eq!((s.files, s.free_files), (1000000, 999997));
            assert_eq!((s.block_size, s.name_length, s.fragment_size), (4096, 255, 4096));
        }
        _ => panic!("no space"),
    }
}

#[test]
fn mount_is_told_its_options() {
    let opts = |auto_unmount: bool, allow_root: bool| FuseMountOptions {
        mountpoint: "/mnt".to_string(),
        auto_unmount,
        allow_root,
        fsname: "agentfs".to_string(),
        uid: Some(5),
        gid: None,
    };
    let all = opts(true, true).mount_options();
    assert!(matches!(&all[0], MountOption::FSName(n) if n == "agentfs"));
    assert!(matches!(all[1], MountOption::AutoUnmount) && matches!(all[2], MountOption::AllowRoot));
    assert_eq!(opts(false, false).mount_options().len(), 1);
    assert_eq!(opts(false, false).owner(1, 2), (5, 2));
    assert_eq!(wanted_capabilities().len(), 5);
    assert_eq!(wanted_capabilities()[0], Capability::AsyncRead);
}

#[test]
fn jobs_are_told_apart() {
    let fs: AgentFSFuse<u8> = AgentFSFuse::mounted(0, 0);
    assert!(matches!(fs.getattr(1), Ok(Job::GetAttr { path }) if path == "/"));
    assert!(matches!(fs.open(1), Ok(Job::Open { path }) if path == "/"));
}
