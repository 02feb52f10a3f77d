//! The adapter for network clients.

use agentfs::fs::types::{FsError, Stats};
use agentfs::nfs::attr::{
    error_to_nfsstat, number_of, permissions_for, stats_to_fattr, type_bits, Device, FileKind,
    NfsStat,
};
use agentfs::nfs::ids::InodeMap;
use agentfs::nfs::ops::{Auth, End, NfsJob, SetAttr};
use agentfs::nfs::server::{AgentNFS, Answer, Start};
use agentfs::nodes::{
    FileRef, IoKind, NodeCall, NodeEntry, NodeReply, NodeRequest, NodeResponse, NodeStats,
    SdkError,
};
use agentfs::plan::Step;

const AUTH: Auth = Auth { uid: 5, gid: 6 };

fn node(ino: i64, mode: u32) -> NodeStats {
    NodeStats {
        stats: Stats {
            ino,
            mode,
            nlink: 1,
            uid: 5,
            gid: 6,
            size: 10,
            atime: 1,
            mtime: 2,
            ctime: 3,
        },
        rdev: 0,
    }
}

fn found(ino: i64, mode: u32) -> NodeResponse {
    NodeReply::Stats(Some(node(ino, mode)))
}

const DIR: u32 = 0o040755;
const FILE: u32 = 0o100644;

/// Runs a job over replies, and lets the adapter finish it.
fn drive(
    nfs: &mut AgentNFS,
    job: &NfsJob,
    replies: Vec<NodeResponse>,
) -> (Vec<NodeRequest>, Result<Answer, NfsStat>) {
    let mut given: Vec<NodeResponse> = Vec::new();
    let mut asked = Vec::new();
    let mut coming = replies.into_iter();
    loop {
        match job.run(&given) {
            Step::Done(Ok(end)) => {
                let answer = nfs.finish(end);
                return (asked, Ok(answer));
            }
            Step::Done(Err(e)) => return (asked, Err(e)),
            Step::Ask(q) => asked.push(q),
        }
        given.push(coming.next().expect("another reply"));
    }
}

fn lookup_job(nfs: &AgentNFS, dir: u64, name: &[u8]) -> NfsJob {
    match nfs.lookup(dir, name) {
        Ok(Start::Job(j)) => j,
        _ => panic!("no job"),
    }
}

#[test]
fn failures_have_status_codes() {
    let all = [
        (FsError::NotFound, NfsStat::NoEntry),
        (FsError::AlreadyExists, NfsStat::Exists),
        (FsError::NotEmpty, NfsStat::NotEmpty),
        (FsError::NotADirectory, NfsStat::NotDirectory),
        (FsError::IsADirectory, NfsStat::IsDirectory),
        (FsError::NameTooLong, NfsStat::NameTooLong),
        (FsError::RootOperation, NfsStat::Access),
        (FsError::SymlinkLoop, NfsStat::Io),
    ];
    for (e, s) in all {
        assert_eq!(error_to_nfsstat(SdkError::Fs(e)), s);
    }
    assert_eq!(error_to_nfsstat(SdkError::ConnectionPoolTimeout), NfsStat::Jukebox);
    assert_eq!(error_to_nfsstat(SdkError::Io(IoKind::NotFound)), NfsStat::Io);
}

#[test]
fn attributes_of_a_device() {
    let dev = number_of(Device { major: 8, minor: 1 });
    assert_eq!(dev, 0x801);
    let big = Device { major: 0x12345, minor: 0x6789a };
    let a = stats_to_fattr(&NodeStats { rdev: number_of(big), ..node(3, 0o060660) }, 9);
    assert_eq!(a.rdev, big);
    assert_eq!((a.kind, a.mode, a.fileid, a.fsid), (FileKind::Block, 0o660, 9, 0));
    assert_eq!((a.size, a.used), (10, 10));
    assert_eq!((a.atime.seconds, a.mtime.seconds, a.ctime.seconds), (1, 2, 3));
}

#[test]
fn kinds_follow_the_mode() {
    for (mode, kind) in [
        (DIR, FileKind::Directory),
        (FILE, FileKind::Regular),
        (0o120777, FileKind::Link),
        (0o010644, FileKind::Fifo),
        (0o020644, FileKind::Character),
        (0o140644, FileKind::Socket),
        (0, FileKind::Regular),
    ] {
        assert_eq!(stats_to_fattr(&node(1, mode), 1).kind, kind);
        if let Some(bits) = type_bits(kind) {
            assert_eq!(bits, mode & 0o170000);
        }
    }
    assert_eq!(type_bits(FileKind::Directory), None);
    assert_eq!((permissions_for(Some(0o100777), 0o644), permissions_for(None, 0o644)), (0o777, 0o644));
}

#[test]
fn path_that_is_replaced_loses_its_id() {
    let mut m = InodeMap::new();
    assert_eq!(m.get_or_create_ino("/a", 10), 2);
    assert_eq!(m.get_or_create_ino("/b", 11), 3);
    m.rename_path("/a", "/b");
    assert_eq!(m.get_path(2).as_deref(), Some("/b"));
    assert_eq!(m.get_fs_ino(2), Some(10));
    assert_eq!(m.path_to_ino.get("/b"), Some(&2));
    assert!(m.path_to_ino.get("/a").is_none());
    assert!(m.get_path(3).is_none());
    assert!(m.get_fs_ino(3).is_none());
    m.rename_path("/b", "/b");
    assert_eq!(m.get_path(2).as_deref(), Some("/b"));
    assert_eq!(m.get_fs_ino(2), Some(10));
    m.rename_path("/x", "/b");
    assert_eq!(m.get_path(2).as_deref(), Some("/b"));
}

#[test]
fn paths_keep_their_identifiers() {
    let mut m = InodeMap::new();
    assert_eq!(m.get_path(1), Some("/".to_string()));
    let a = m.get_or_create_ino("/a", 10);
    let b = m.get_or_create_ino("/b", 11);
    assert_ne!(a, b);
    assert_eq!(m.get_or_create_ino("/a", 12), a);
    assert_eq!(m.get_path(a), Some("/a".to_string()));
    assert_eq!(m.get_fs_ino(b), Some(11));
    m.rename_path("/a", "/c");
    assert_eq!(m.get_path(a), Some("/c".to_string()));
    assert_eq!(m.get_or_create_ino("/c", 10), a);
    m.remove_path("/c");
    assert_eq!((m.get_path(a), m.get_fs_ino(a)), (None, None));
    let again = m.get_or_create_ino("/c", 13);
    assert!(again != a && again != b);
}

#[test]
fn names_are_looked_up() {
    let mut nfs = AgentNFS::new();
    assert_eq!(nfs.root_dir(), 1);
    let job = lookup_job(&nfs, 1, b"f");
    let (asked, got) = drive(&mut nfs, &job, vec![found(1, DIR), found(7, FILE)]);
    assert!(matches!(&asked[1], NodeCall::Lookup { parent: 1, name } if name == "f"));
    let id = match got {
        Ok(Answer::Id(id)) => id,
        _ => panic!("no identifier"),
    };
    assert_eq!(nfs.map.get_path(id), Some("/f".to_string()));
    assert_eq!(nfs.map.get_fs_ino(id), Some(7));
    assert!(matches!(nfs.lookup(1, b"."), Ok(Start::Known(1))));
    assert!(matches!(nfs.lookup(99, b"f"), Err(NfsStat::NoEntry)));
    assert!(matches!(nfs.lookup(1, &[0xff]), Err(NfsStat::Invalid)));
    let (_, got) = drive(&mut nfs, &job, vec![found(1, FILE)]);
    assert!(matches!(got, Err(NfsStat::NotDirectory)));
    let (_, got) = drive(&mut nfs, &job, vec![found(1, DIR), NodeReply::Stats(None)]);
    assert!(matches!(got, Err(NfsStat::NoEntry)));
}

#[test]
fn directory_above_is_walked_to() {
    let mut nfs = AgentNFS::new();
    let inner = nfs.map.get_or_create_ino("/a/b/c", 30);
    let job = lookup_job(&nfs, inner, b"..");
    let (asked, got) = drive(&mut nfs, &job, vec![found(10, DIR), found(20, DIR)]);
    assert!(matches!(&asked[0], NodeCall::Lookup { parent: 1, name } if name == "a"));
    assert!(matches!(&asked[1], NodeCall::Lookup { parent: 10, name } if name == "b"));
    match got {
        Ok(Answer::Id(id)) => {
            assert_eq!(nfs.map.get_path(id), Some("/a/b".to_string()));
            assert_eq!(nfs.map.get_fs_ino(id), Some(20));
        }
        _ => panic!("no identifier"),
    }
}

#[test]
fn attributes_change_in_order() {
    let mut nfs = AgentNFS::new();
    let id = nfs.map.get_or_create_ino("/f", 7);
    let change = SetAttr { mode: Some(0o600), uid: Some(1), gid: None, size: Some(4) };
    let job = nfs.setattr(id, change).unwrap();
    let done = || NodeReply::Done;
    let (asked, got) =
        drive(&mut nfs, &job, vec![done(), done(), done(), done(), found(7, FILE)]);
    assert!(matches!(asked[0], NodeCall::Chmod { ino: 7, mode: 0o600 }));
    assert!(matches!(asked[1], NodeCall::Chown { ino: 7, uid: Some(1), gid: None }));
    assert!(matches!(asked[2], NodeCall::Open { ino: 7 }));
    assert!(matches!(asked[3], NodeCall::Truncate { file: FileRef::Opened, size: 4 }));
    assert!(matches!(got, Ok(Answer::Attr(a)) if a.fileid == id));
    let denied = NodeReply::Failed(SdkError::Fs(FsError::RootOperation));
    let (_, got) = drive(&mut nfs, &job, vec![denied]);
    assert!(matches!(got, Err(NfsStat::Access)));
    assert!(matches!(nfs.setattr(99, change), Err(NfsStat::NoEntry)));
}

#[test]
fn reads_say_when_the_end_is_reached() {
    let mut nfs = AgentNFS::new();
    let id = nfs.map.get_or_create_ino("/f", 7);
    let job = nfs.read(id, 0, 4).unwrap();
    let read = |n: usize| vec![NodeReply::Done, NodeReply::Bytes(vec![1; n]), found(7, FILE)];
    let (_, got) = drive(&mut nfs, &job, read(4));
    assert!(matches!(got, Ok(Answer::Data { data, eof: false }) if data.len() == 4));
    let (_, got) = drive(&mut nfs, &job, read(10));
    assert!(matches!(got, Ok(Answer::Data { eof: true, .. })));
    let failed = NodeReply::Failed(SdkError::Fs(FsError::IsADirectory));
    let (_, got) = drive(&mut nfs, &job, vec![failed]);
    assert!(matches!(got, Err(NfsStat::NoEntry)));
}

#[test]
fn writes_ask_for_the_attributes() {
    let mut nfs = AgentNFS::new();
    let id = nfs.map.get_or_create_ino("/f", 7);
    let job = nfs.write(id, 3, b"ab".to_vec()).unwrap();
    let (asked, got) = drive(&mut nfs, &job, vec![NodeReply::Done, NodeReply::Done]);
    assert!(matches!(&asked[1], NodeCall::Pwrite { offset: 3, data, .. } if data == b"ab"));
    assert!(matches!(got, Ok(Answer::AttrOf { id: i, new: false }) if i == id));
    let job = nfs.getattr(id).unwrap();
    assert!(matches!(drive(&mut nfs, &job, vec![found(7, FILE)]).1, Ok(Answer::Attr(_))));
}

#[test]
fn entries_are_made() {
    let mut nfs = AgentNFS::new();
    let job = nfs.create(1, b"f", Some(0o100600), AUTH).unwrap();
    let (asked, got) = drive(&mut nfs, &job, vec![found(7, FILE)]);
    assert!(matches!(
        &asked[0],
        NodeCall::CreateFile { parent: 1, name, mode: 0o100600, uid: 5, gid: 6 } if name == "f"
    ));
    assert!(matches!(got, Ok(Answer::AttrOf { new: true, .. })));
    let job = nfs.create_exclusive(1, b"g", AUTH).unwrap();
    let (_, got) = drive(&mut nfs, &job, vec![found(8, FILE)]);
    assert!(matches!(got, Err(NfsStat::Exists)));
    let (asked, got) = drive(&mut nfs, &job, vec![NodeReply::Stats(None), found(8, FILE)]);
    assert!(matches!(&asked[1], NodeCall::CreateFile { mode: 0o100644, .. }));
    assert!(matches!(got, Ok(Answer::Id(_))));
    let job = nfs.mkdir(1, b"d", None, AUTH).unwrap();
    let (asked, got) = drive(&mut nfs, &job, vec![found(9, DIR), NodeReply::Done]);
    assert!(matches!(&asked[0], NodeCall::Mkdir { mode: None, .. }));
    assert!(matches!(&asked[1], NodeCall::Chmod { ino: 9, mode: 0o040755 }));
    assert!(matches!(got, Ok(Answer::AttrOf { new: true, .. })));
    let job = nfs.symlink(1, b"l", b"f", AUTH).unwrap();
    let (asked, _) = drive(&mut nfs, &job, vec![found(10, 0o120777)]);
    assert!(matches!(&asked[0], NodeCall::Symlink { target, .. } if target == "f"));
}

#[test]
fn devices_are_made_of_known_kinds() {
    let mut nfs = AgentNFS::new();
    let dev = Device { major: 1, minor: 3 };
    let job = nfs.mknod(1, b"null", FileKind::Character, Some(0o666), dev, AUTH).unwrap();
    let (asked, _) = drive(&mut nfs, &job, vec![found(11, 0o020666)]);
    assert!(matches!(&asked[0], NodeCall::Mknod { mode: 0o020666, rdev: 0x103, .. }));
    assert!(matches!(
        nfs.mknod(1, b"d", FileKind::Directory, None, dev, AUTH),
        Err(NfsStat::BadType)
    ));
}

#[test]
fn removed_and_moved_entries_are_known_no_longer() {
    let mut nfs = AgentNFS::new();
    let id = nfs.map.get_or_create_ino("/f", 7);
    let job = nfs.rename(1, b"f", 1, b"g").unwrap();
    let (asked, got) = drive(&mut nfs, &job, vec![NodeReply::Done]);
    assert!(matches!(&asked[0], NodeCall::Rename { name, newname, .. } if name == "f" && newname == "g"));
    assert!(matches!(got, Ok(Answer::Done)));
    assert_eq!(nfs.map.get_path(id), Some("/g".to_string()));
    let job = nfs.remove(1, b"g").unwrap();
    let (asked, _) = drive(&mut nfs, &job, vec![found(7, FILE), NodeReply::Done]);
    assert!(matches!(&asked[1], NodeCall::Unlink { .. }));
    assert_eq!(nfs.map.get_path(id), None);
    let job = nfs.remove(1, b"d").unwrap();
    let full = NodeReply::Failed(SdkError::Fs(FsError::NotEmpty));
    let (asked, got) = drive(&mut nfs, &job, vec![found(9, DIR), full]);
    assert!(matches!(&asked[1], NodeCall::Rmdir { .. }));
    assert!(matches!(got, Err(NfsStat::NotEmpty)));
}

fn entries(names: &[&str]) -> Vec<NodeEntry<String>> {
    names
        .iter()
        .enumerate()
        .map(|(i, n)| NodeEntry { name: n.to_string(), node: node(20 + i as i64, FILE) })
        .collect()
}

#[test]
fn listings_continue_behind_the_last_line() {
    let mut nfs = AgentNFS::new();
    let all = entries(&["a", "b", "c"]);
    let first = nfs.list("/", &all, 0, 2);
    let names: Vec<_> = first.entries.iter().map(|l| l.name.clone()).collect();
    assert_eq!(names, vec!["a", "b"]);
    assert!(!first.end);
    let last = first.entries[1].fileid;
    let rest = nfs.list("/", &all, last, 2);
    assert_eq!(rest.entries.len(), 1);
    assert_eq!(rest.entries[0].name, "c");
    assert!(rest.end);
    let again = nfs.list("/", &all, 0, 9);
    assert!(again.end);
    assert_eq!(again.entries[1].fileid, last);
    assert_eq!(again.entries[0].attr.fileid, again.entries[0].fileid);
}

#[test]
fn directories_and_links_are_read() {
    let mut nfs = AgentNFS::new();
    let job = nfs.readdir(1, 0, 10).unwrap();
    let replies = vec![NodeReply::Entries(Some(entries(&["a"])))];
    let (asked, got) = drive(&mut nfs, &job, replies);
    assert!(matches!(asked[0], NodeCall::ReaddirPlus { ino: 1 }));
    assert!(matches!(got, Ok(Answer::Listing(l)) if l.end && l.entries.len() == 1));
    let (_, got) = drive(&mut nfs, &job, vec![NodeReply::Entries(None)]);
    assert!(matches!(got, Err(NfsStat::NoEntry)));
    let id = nfs.map.get_or_create_ino("/l", 8);
    let job = nfs.readlink(id).unwrap();
    let target = NodeReply::Target(Some("there".to_string()));
    assert!(matches!(drive(&mut nfs, &job, vec![target]).1, Ok(Answer::Target { target: t }) if t == "there"));
    assert!(matches!(
        nfs.finish(End::Target { target: "x".to_string() }),
        Answer::Target { .. }
    ));
}
