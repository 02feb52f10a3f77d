//! The adapter for Windows.

use agentfs::fs::types::{FsError, Stats};
use agentfs::nodes::{
    FileRef, IoKind, NodeCall, NodeEntry, NodeReply, NodeRequest, NodeResponse, NodeStats,
    SdkError, TimeChange,
};
use agentfs::plan::Step;
use agentfs::winfsp::adapter::{unmount, AgentFSWinFsp, FileContext, Start, WinJob};
use agentfs::winfsp::info::{
    anyhow_to_ntstatus, change_to, error_to_ntstatus, fill_file_info, mode_to_attributes,
    mount_ready, strip_verbatim, PathFailure, STATUS_ACCESS_DENIED, STATUS_DIRECTORY_NOT_EMPTY,
    STATUS_DISK_FULL, STATUS_FILE_IS_A_DIRECTORY, STATUS_INVALID_PARAMETER,
    STATUS_NOT_A_DIRECTORY, STATUS_OBJECT_NAME_COLLISION, STATUS_OBJECT_NAME_INVALID,
    STATUS_OBJECT_NAME_NOT_FOUND,
};
use agentfs::winfsp::jobs::{Good, WinEnd};

const DIR: u32 = 0o040755;
const FILE: u32 = 0o100644;

fn node(ino: i64, mode: u32) -> NodeStats {
    NodeStats {
        stats: Stats {
            ino,
            mode,
            nlink: 1,
            uid: 0,
            gid: 0,
            size: 4097,
            atime: 1,
            mtime: 2,
            ctime: 0,
        },
        rdev: 0,
    }
}

fn found(ino: i64, mode: u32) -> NodeResponse {
    NodeReply::Stats(Some(node(ino, mode)))
}

fn drive(job: &WinJob, replies: Vec<NodeResponse>) -> (Vec<NodeRequest>, WinEnd) {
    let mut given: Vec<NodeResponse> = Vec::new();
    let mut asked = Vec::new();
    let mut coming = replies.into_iter();
    loop {
        match job.run(&given) {
            Step::Done(end) => return (asked, end),
            Step::Ask(q) => {
                asked.push(q);
                given.push(coming.next().expect("another reply"));
            }
        }
    }
}

fn job_of(r: Result<Start<WinJob>, i32>) -> WinJob {
    match r {
        Ok(Start::Job(j)) => j,
        _ => panic!("no job"),
    }
}

fn opened(fs: &mut AgentFSWinFsp<u8>, ino: i64, mode: u32) -> FileContext {
    let job = fs.open("\\x");
    let replies = if mode == DIR {
        vec![found(ino, mode)]
    } else {
        vec![found(ino, mode), NodeReply::Done]
    };
    let (_, end) = drive(&job, replies);
    fs.settle(&end, "/x", Some(9)).expect("a handle")
}

#[test]
fn failures_have_status_codes_of_windows() {
    let all = [
        (FsError::NotFound, STATUS_OBJECT_NAME_NOT_FOUND),
        (FsError::AlreadyExists, STATUS_OBJECT_NAME_COLLISION),
        (FsError::NotADirectory, STATUS_NOT_A_DIRECTORY),
        (FsError::IsADirectory, STATUS_FILE_IS_A_DIRECTORY),
        (FsError::NotEmpty, STATUS_DIRECTORY_NOT_EMPTY),
        (FsError::InvalidPath, STATUS_OBJECT_NAME_INVALID),
        (FsError::RootOperation, STATUS_ACCESS_DENIED),
        (FsError::SymlinkLoop, STATUS_INVALID_PARAMETER),
        (FsError::InvalidRename, STATUS_INVALID_PARAMETER),
        (FsError::NameTooLong, STATUS_OBJECT_NAME_INVALID),
        (FsError::NotASymlink, STATUS_INVALID_PARAMETER),
    ];
    for (e, s) in all {
        assert_eq!(error_to_ntstatus(SdkError::Fs(e)), s);
    }
    assert_eq!(STATUS_OBJECT_NAME_NOT_FOUND as u32, 0xC0000034);
    assert_eq!(STATUS_ACCESS_DENIED as u32, 0xC0000022);
    assert_eq!(anyhow_to_ntstatus(PathFailure::Message), STATUS_INVALID_PARAMETER);
    assert_eq!(anyhow_to_ntstatus(PathFailure::Io(IoKind::StorageFull)), STATUS_DISK_FULL);
    assert_eq!(
        anyhow_to_ntstatus(PathFailure::Sdk(SdkError::Io(IoKind::PermissionDenied))),
        STATUS_ACCESS_DENIED
    );
    assert_eq!(error_to_ntstatus(SdkError::ConnectionPoolTimeout), STATUS_INVALID_PARAMETER);
}

#[test]
fn attributes_of_windows() {
    assert_eq!(mode_to_attributes(DIR), 0x10);
    assert_eq!(mode_to_attributes(FILE), 0x20);
    assert_eq!(mode_to_attributes(0o120777), 0x420);
    assert_eq!(mode_to_attributes(0o100444), 0x21);
    let i = fill_file_info(&node(5, FILE).stats);
    assert_eq!((i.allocation_size, i.file_size, i.index_number), (8192, 4097, 5));
    assert_eq!(i.creation_time, 116444736000000000);
    assert_eq!(i.last_access_time, 116444736010000000);
    assert_eq!(i.last_write_time, 116444736020000000);
    assert_eq!(i.change_time, i.last_write_time);
    assert_eq!((i.reparse_tag, i.hard_links, i.ea_size), (0, 1, 0));
}

#[test]
fn times_come_back_from_windows() {
    assert_eq!(change_to(0), TimeChange::Omit);
    assert_eq!(change_to(116444736020000000), TimeChange::At(2, 0));
    assert_eq!(change_to(116444736029999999), TimeChange::At(2, 0));
}

#[test]
fn opening_gives_a_handle() {
    let mut fs: AgentFSWinFsp<u8> = AgentFSWinFsp::new();
    let job = fs.open("\\a\\b");
    let (asked, end) = drive(&job, vec![found(2, DIR), found(3, FILE), NodeReply::Done]);
    assert!(matches!(&asked[0], NodeCall::Lookup { parent: 1, name } if name == "a"));
    assert!(matches!(&asked[1], NodeCall::Lookup { parent: 2, name } if name == "b"));
    assert!(matches!(&asked[2], NodeCall::Open { ino: 3 }));
    let ctx = fs.settle(&end, "/a/b", Some(9)).unwrap();
    assert_eq!(ctx.fh, 1);
    let e = fs.entry(1).unwrap();
    assert_eq!((e.ino, e.is_dir, e.delete_on_close, e.file), (3, false, false, Some(9)));
    assert_eq!(e.path, "/a/b");
    let (_, end) = drive(&job, vec![NodeReply::Stats(None)]);
    assert_eq!(end.result.err(), Some(STATUS_INVALID_PARAMETER));
    let (_, end) = drive(&job, vec![found(2, FILE)]);
    assert_eq!(end.result.err(), Some(STATUS_INVALID_PARAMETER));
    let (_, end) = drive(&job, vec![found(2, DIR), NodeReply::Stats(None)]);
    assert_eq!(end.result.err(), Some(STATUS_OBJECT_NAME_NOT_FOUND));
}

#[test]
fn root_is_asked_for_itself() {
    let fs: AgentFSWinFsp<u8> = AgentFSWinFsp::new();
    let (asked, end) = drive(&fs.get_security_by_name("\\"), vec![found(1, DIR)]);
    assert!(matches!(asked[0], NodeCall::Getattr { ino: 1 }));
    assert!(matches!(end.result, Ok(Good::Security { reparse: false, attributes: 0x10 })));
    assert_eq!(AgentFSWinFsp::<u8>::win_path_to_unix("\\a\\b"), "/a/b");
}

#[test]
fn creating_makes_what_is_missing() {
    let fs: AgentFSWinFsp<u8> = AgentFSWinFsp::new();
    let file = fs.create("\\f", 0);
    let (asked, end) =
        drive(&file, vec![NodeReply::Stats(None), found(4, FILE), NodeReply::Done]);
    assert!(matches!(&asked[1], NodeCall::Mknod { parent: 1, mode: 0o100644, .. }));
    assert!(matches!(end.result, Ok(Good::Opened { ino: 4, is_dir: false, .. })));
    let dir = fs.create("\\d", 1);
    let (asked, end) = drive(&dir, vec![NodeReply::Stats(None), found(5, DIR)]);
    assert!(matches!(&asked[1], NodeCall::Mkdir { mode: Some(0o755), .. }));
    assert!(matches!(end.result, Ok(Good::Opened { ino: 5, is_dir: true, .. })));
    let (asked, _) = drive(&dir, vec![found(5, DIR)]);
    assert_eq!(asked.len(), 1);
}

#[test]
fn marked_entries_are_deleted_on_closing() {
    let mut fs: AgentFSWinFsp<u8> = AgentFSWinFsp::new();
    let a = opened(&mut fs, 3, FILE);
    let b = opened(&mut fs, 4, FILE);
    assert_eq!(fs.set_delete(&a, true), Ok(()));
    assert_eq!(fs.set_delete(&b, true), Ok(()));
    assert_eq!(fs.set_delete(&b, false), Ok(()));
    let b_handle = FileContext { fh: b.fh };
    assert!(fs.close(b).is_none());
    assert_eq!(fs.set_delete(&b_handle, true), Err(STATUS_INVALID_PARAMETER));
    let job = fs.close(a).unwrap();
    let (asked, end) = drive(&job, vec![NodeReply::Done]);
    assert!(matches!(&asked[0], NodeCall::Unlink { parent: 1, name } if name == "x"));
    assert!(matches!(end.result, Ok(Good::Done)));
}

#[test]
fn open_files_are_read_and_written() {
    let mut fs: AgentFSWinFsp<u8> = AgentFSWinFsp::new();
    let f = opened(&mut fs, 3, FILE);
    let (asked, end) =
        drive(&job_of(fs.read(&f, 2, 7)), vec![NodeReply::Bytes(b"abc".to_vec())]);
    assert!(matches!(asked[0], NodeCall::Pread { file: FileRef::Handle(1), offset: 7, size: 2 }));
    assert!(matches!(end.result, Ok(Good::Data(d)) if d == b"ab"));
    let (_, end) = drive(
        &job_of(fs.write(&f, b"abc".to_vec(), 1)),
        vec![NodeReply::Done, found(3, FILE)],
    );
    assert!(matches!(end.result, Ok(Good::Written { len: 3, info: Some(_) })));
    let (asked, _) =
        drive(&job_of(fs.set_file_size(&f, 5, false)), vec![NodeReply::Done, found(3, FILE)]);
    assert!(matches!(asked[0], NodeCall::Truncate { size: 5, .. }));
    let (asked, _) = drive(&job_of(fs.set_file_size(&f, 5, true)), vec![found(3, FILE)]);
    assert!(matches!(asked[0], NodeCall::Getattr { ino: 3 }));
    let (asked, _) = drive(&job_of(fs.overwrite(&f)), vec![NodeReply::Done, found(3, FILE)]);
    assert!(matches!(asked[0], NodeCall::Truncate { size: 0, .. }));
    let (asked, _) = drive(&job_of(fs.flush(Some(&f))), vec![NodeReply::Done, found(3, FILE)]);
    assert!(matches!(asked[0], NodeCall::Fsync { .. }));
    assert!(matches!(fs.flush(None), Ok(Start::Done)));
    let (asked, _) = drive(
        &job_of(fs.set_basic_info(&f, 0, 116444736020000000)),
        vec![NodeReply::Done, found(3, FILE)],
    );
    assert!(matches!(
        asked[0],
        NodeCall::Utimens { ino: 3, atime: TimeChange::Omit, mtime: TimeChange::At(2, 0) }
    ));
    let (_, end) = drive(&job_of(fs.get_file_info(&f)), vec![NodeReply::Stats(None)]);
    assert_eq!(end.result.err(), Some(STATUS_OBJECT_NAME_NOT_FOUND));
}

#[test]
fn directories_are_not_read_as_files() {
    let mut fs: AgentFSWinFsp<u8> = AgentFSWinFsp::new();
    let d = opened(&mut fs, 2, DIR);
    assert!(matches!(fs.read(&d, 1, 0), Err(STATUS_FILE_IS_A_DIRECTORY)));
    assert!(matches!(fs.write(&d, vec![], 0), Err(STATUS_FILE_IS_A_DIRECTORY)));
    assert!(matches!(fs.set_file_size(&d, 0, false), Ok(Start::Done)));
    let gone = FileContext { fh: 77 };
    assert!(matches!(fs.read(&gone, 1, 0), Err(STATUS_INVALID_PARAMETER)));
    assert!(matches!(fs.get_file_info(&gone), Err(STATUS_INVALID_PARAMETER)));
}

#[test]
fn listing_goes_on_behind_the_marker() {
    let mut fs: AgentFSWinFsp<u8> = AgentFSWinFsp::new();
    let d = opened(&mut fs, 2, DIR);
    let names = |marker: Option<&str>| {
        let entries = ["a", "b", "c"]
            .iter()
            .map(|n| NodeEntry { name: n.to_string(), node: node(9, FILE) })
            .collect();
        let job = job_of(fs.read_directory(&d, marker.map(|m| m.to_string())));
        let (_, end) = drive(&job, vec![NodeReply::Entries(Some(entries))]);
        match end.result {
            Ok(Good::Listing(l)) => l.into_iter().map(|x| x.name).collect::<Vec<_>>(),
            _ => panic!("no listing"),
        }
    };
    assert_eq!(names(None), vec!["a", "b", "c"]);
    assert_eq!(names(Some("a")), vec!["b", "c"]);
    assert!(names(Some("c")).is_empty());
    assert_eq!(names(Some("zz")), vec!["a", "b", "c"]);
}

#[test]
fn entries_move_in_windows() {
    let fs: AgentFSWinFsp<u8> = AgentFSWinFsp::new();
    let (asked, end) = drive(&fs.rename("\\a", "\\b"), vec![NodeReply::Done]);
    assert!(matches!(
        &asked[0],
        NodeCall::Rename { parent: 1, name, newparent: 1, newname } if name == "a" && newname == "b"
    ));
    assert!(matches!(end.result, Ok(Good::Done)));
    let full = NodeReply::Failed(SdkError::Fs(FsError::NotEmpty));
    let (_, end) = drive(&fs.rename("\\a", "\\b"), vec![full]);
    assert_eq!(end.result.err(), Some(STATUS_DIRECTORY_NOT_EMPTY));
}

#[test]
fn volume_has_a_fixed_size() {
    let fs: AgentFSWinFsp<u8> = AgentFSWinFsp::new();
    let used = NodeReply::Usage { inodes: 1, bytes_used: 24 };
    let (_, end) = drive(&fs.get_volume_info(), vec![used]);
    assert!(matches!(
        end.result,
        Ok(Good::Volume { total_size: 1073741824, free_size: 1073741800 })
    ));
}

#[test]
fn mountpoints_of_windows() {
    assert_eq!(strip_verbatim("\\\\?\\C:\\mnt"), "C:\\mnt");
    assert_eq!(strip_verbatim("C:\\mnt"), "C:\\mnt");
    assert!(mount_ready(false, true) && mount_ready(true, false) && !mount_ready(false, false));
    let _ = unmount("C:\\mnt", false);
}
