//! The file system, over tables in memory.

use agentfs::errno::Errno;
use agentfs::fs::ops::Filesystem;
use agentfs::fs::store::{Cell, DbRequest, Request, Rows};
use agentfs::fs::types::{FsError, OpError, Stats};
use agentfs::plan::Step;
use std::collections::BTreeMap;

struct Node {
    mode: i64,
    size: i64,
    times: [i64; 3],
}

#[derive(Default)]
struct Db {
    nodes: BTreeMap<i64, Node>,
    entries: BTreeMap<(i64, String), i64>,
    data: BTreeMap<i64, Vec<Vec<u8>>>,
    targets: BTreeMap<i64, String>,
    last: i64,
    next: i64,
}

type Field = Cell<String, Vec<u8>>;

fn rows(rows: Vec<Vec<Field>>) -> Rows {
    Rows { rows }
}

fn one(n: i64) -> Rows {
    rows(vec![vec![Cell::Integer(n)]])
}

impl Db {
    fn new() -> Db {
        let mut db = Db { next: 1, ..Db::default() };
        db.run(|r| Filesystem::ensure_root(1, r)).unwrap();
        db
    }

    fn execute(&mut self, q: DbRequest) -> Rows {
        let none = rows(Vec::new());
        match q {
            Request::Lookup { parent, name } => match self.entries.get(&(parent, name)) {
                Some(ino) => one(*ino),
                None => none,
            },
            Request::Inode { ino } => match self.nodes.get(&ino) {
                Some(n) => rows(vec![vec![
                    Cell::Integer(ino),
                    Cell::Integer(n.mode),
                    Cell::Integer(0),
                    Cell::Integer(0),
                    Cell::Integer(n.size),
                    Cell::Integer(n.times[0]),
                    Cell::Integer(n.times[1]),
                    Cell::Integer(n.times[2]),
                ]]),
                None => none,
            },
            Request::Mode { ino } => match self.nodes.get(&ino) {
                Some(n) => one(n.mode),
                None => none,
            },
            Request::LinkCount { ino } => {
                one(self.entries.values().filter(|i| **i == ino).count() as i64)
            }
            Request::ChildCount { ino } => {
                one(self.entries.keys().filter(|k| k.0 == ino).count() as i64)
            }
            Request::InsertInode { mode, size, now } => {
                self.last = self.next;
                self.next += 1;
                self.nodes.insert(self.last, Node { mode, size, times: [now; 3] });
                none
            }
            Request::InsertRoot { mode, now } => {
                self.last = 1;
                self.next = self.next.max(2);
                self.nodes.insert(1, Node { mode, size: 0, times: [now; 3] });
                none
            }
            Request::InodeExists { ino } => {
                if self.nodes.contains_key(&ino) {
                    one(ino)
                } else {
                    none
                }
            }
            Request::LastRowid => one(self.last),
            Request::InsertEntry { name, parent, ino } => {
                self.entries.insert((parent, name), ino);
                none
            }
            Request::DeleteEntry { parent, name } => {
                self.entries.remove(&(parent, name));
                none
            }
            Request::MoveEntry { new_parent, new_name, parent, name } => {
                if let Some(ino) = self.entries.remove(&(parent, name)) {
                    self.entries.insert((new_parent, new_name), ino);
                }
                none
            }
            Request::DeleteData { ino } => {
                self.data.remove(&ino);
                none
            }
            Request::DeleteTarget { ino } => {
                self.targets.remove(&ino);
                none
            }
            Request::DeleteInode { ino } => {
                self.nodes.remove(&ino);
                none
            }
            Request::InsertData { ino, data, .. } => {
                self.data.entry(ino).or_default().push(data);
                none
            }
            Request::InsertTarget { ino, target } => {
                self.targets.insert(ino, target);
                none
            }
            Request::UpdateSize { size, mtime, ino } => {
                if let Some(n) = self.nodes.get_mut(&ino) {
                    n.size = size;
                    n.times[1] = mtime;
                }
                none
            }
            Request::UpdateCtime { ctime, ino } => {
                if let Some(n) = self.nodes.get_mut(&ino) {
                    n.times[2] = ctime;
                }
                none
            }
            Request::SelectData { ino } => rows(
                self.data
                    .get(&ino)
                    .map(|blocks| blocks.iter().map(|b| vec![Cell::Blob(b.clone())]).collect())
                    .unwrap_or_default(),
            ),
            Request::SelectNames { parent } => rows(
                self.entries
                    .keys()
                    .filter(|k| k.0 == parent)
                    .map(|k| vec![Cell::Text(k.1.clone())])
                    .collect(),
            ),
            Request::SelectTarget { ino } => match self.targets.get(&ino) {
                Some(t) => rows(vec![vec![Cell::Text(t.clone())]]),
                None => none,
            },
        }
    }

    fn run<T>(&mut self, op: impl Fn(&Vec<Rows>) -> Step<DbRequest, T>) -> T {
        let mut replies: Vec<Rows> = Vec::new();
        loop {
            match op(&replies) {
                Step::Done(t) => return t,
                Step::Ask(q) => {
                    let r = self.execute(q);
                    replies.push(r);
                }
            }
        }
    }

    fn mkdir(&mut self, p: &str) -> Result<(), OpError> {
        self.run(|r| Filesystem::mkdir(p, 10, r))
    }

    fn write(&mut self, p: &str, d: &[u8]) -> Result<(), OpError> {
        self.run(|r| Filesystem::write_file(p, d, 20, r))
    }

    fn read(&mut self, p: &str) -> Option<Vec<u8>> {
        self.run(|r| Filesystem::read_file(p, r)).unwrap()
    }

    fn stat(&mut self, p: &str) -> Option<Stats> {
        self.run(|r| Filesystem::stat(p, r)).unwrap()
    }

    fn lstat(&mut self, p: &str) -> Option<Stats> {
        self.run(|r| Filesystem::lstat(p, r)).unwrap()
    }

    fn list(&mut self, p: &str) -> Option<Vec<String>> {
        self.run(|r| Filesystem::readdir(p, r)).unwrap()
    }

    fn symlink(&mut self, t: &str, p: &str) -> Result<(), OpError> {
        self.run(|r| Filesystem::symlink(t, p, 30, r))
    }

    fn remove(&mut self, p: &str) -> Result<(), OpError> {
        self.run(|r| Filesystem::remove(p, r))
    }

    fn rename(&mut self, a: &str, b: &str) -> Result<(), OpError> {
        self.run(|r| Filesystem::rename(a, b, 40, r))
    }
}

#[test]
fn test_filesystem_operations() {
    let mut fs = Db::new();
    fs.mkdir("/test_dir").unwrap();
    let stats = fs.stat("/test_dir");
    assert!(stats.is_some());
    assert!(stats.unwrap().is_directory());

    let data = b"Hello, AgentFS!";
    fs.write("/test_dir/test.txt", data).unwrap();
    let read_data = fs.read("/test_dir/test.txt").unwrap();
    assert_eq!(read_data, data);

    let entries = fs.list("/test_dir").unwrap();
    assert_eq!(entries, vec!["test.txt"]);
}

#[test]
fn written_file_is_regular_and_sized() {
    let mut fs = Db::new();
    fs.write("/a", b"12345").unwrap();
    let s = fs.stat("/a").unwrap();
    assert!(s.is_file() && !s.is_directory() && !s.is_symlink());
    assert_eq!(s.size, 5);
    assert_eq!(s.mode, 0o100644);
    assert_eq!(s.nlink, 1);
    assert_eq!((s.atime, s.mtime, s.ctime), (20, 20, 20));
}

#[test]
fn write_changes_one_file() {
    let mut fs = Db::new();
    fs.write("/a", b"one").unwrap();
    fs.write("/b", b"two").unwrap();
    fs.write("/a", b"three").unwrap();
    assert_eq!(fs.read("/a").unwrap(), b"three");
    assert_eq!(fs.read("/b").unwrap(), b"two");
}

#[test]
fn missing_things_are_not_found() {
    let mut fs = Db::new();
    assert!(fs.read("/nope").is_none());
    assert!(fs.stat("/nope").is_none());
    assert!(fs.list("/nope").is_none());
    assert!(fs.write("/no/dir", b"x").is_err());
    assert!(fs.mkdir("/no/dir").is_err());
}

#[test]
fn directory_is_created_once() {
    let mut fs = Db::new();
    fs.mkdir("/d").unwrap();
    assert!(fs.mkdir("/d").is_err());
    assert!(fs.mkdir("/").is_err());
}

#[test]
fn links_are_followed() {
    let mut fs = Db::new();
    fs.mkdir("/d").unwrap();
    fs.write("/d/f", b"x").unwrap();
    fs.symlink("d/f", "/link").unwrap();
    assert!(fs.lstat("/link").unwrap().is_symlink());
    assert!(fs.stat("/link").unwrap().is_file());
    assert_eq!(fs.run(|r| Filesystem::readlink("/link", r)).unwrap().unwrap(), "d/f");
    fs.symlink("/loop", "/loop").unwrap();
    assert!(fs.run(|r| Filesystem::stat("/loop", r)).is_err());
}

#[test]
fn removed_is_gone() {
    let mut fs = Db::new();
    fs.write("/a", b"x").unwrap();
    fs.remove("/a").unwrap();
    assert!(fs.read("/a").is_none());
    assert_eq!(fs.data.len(), 0);
    assert!(fs.remove("/a").is_err());
    assert!(fs.remove("/").is_err());
}

#[test]
fn full_directory_is_not_removed() {
    let mut fs = Db::new();
    fs.mkdir("/d").unwrap();
    fs.write("/d/f", b"x").unwrap();
    assert!(fs.remove("/d").is_err());
    fs.remove("/d/f").unwrap();
    fs.remove("/d").unwrap();
    assert!(fs.stat("/d").is_none());
}

#[test]
fn renamed_reads_the_same() {
    let mut fs = Db::new();
    fs.mkdir("/d").unwrap();
    fs.write("/a", b"x").unwrap();
    fs.rename("/a", "/d/b").unwrap();
    assert!(fs.read("/a").is_none());
    assert_eq!(fs.read("/d/b").unwrap(), b"x");
    assert_eq!(fs.stat("/d/b").unwrap().ctime, 40);
}

#[test]
fn renaming_replaces_what_is_there() {
    let mut fs = Db::new();
    fs.write("/a", b"new").unwrap();
    fs.write("/b", b"old").unwrap();
    let ino = fs.stat("/a").unwrap().ino;
    fs.rename("/a", "/b").unwrap();
    assert!(fs.stat("/a").is_none());
    assert_eq!(fs.stat("/b").unwrap().ino, ino);
    assert_eq!(fs.read("/b").unwrap(), b"new");
    fs.mkdir("/d").unwrap();
    fs.write("/d/f", b"x").unwrap();
    fs.mkdir("/e").unwrap();
    let ino = fs.stat("/d").unwrap().ino;
    fs.rename("/d", "/e").unwrap();
    assert!(fs.stat("/d").is_none());
    assert_eq!(fs.stat("/e").unwrap().ino, ino);
    assert_eq!(fs.read("/e/f").unwrap(), b"x");
}

#[test]
fn renaming_takes_all_along_and_nothing_else() {
    let mut fs = Db::new();
    for d in ["/d", "/d/sub", "/e", "/e/keep"] {
        fs.mkdir(d).unwrap();
    }
    fs.write("/d/sub/f", b"deep").unwrap();
    fs.write("/e/g", b"other").unwrap();
    let ino = |fs: &mut Db, p: &str| fs.stat(p).map(|s| s.ino);
    let before: Vec<_> =
        ["/d", "/d/sub", "/d/sub/f"].iter().map(|p| ino(&mut fs, p)).collect();
    let others: Vec<_> = ["/", "/e", "/e/keep", "/e/g"].iter().map(|p| ino(&mut fs, p)).collect();
    fs.rename("/d", "/e/moved").unwrap();
    let after: Vec<_> = ["/e/moved", "/e/moved/sub", "/e/moved/sub/f"]
        .iter()
        .map(|p| ino(&mut fs, p))
        .collect();
    assert_eq!(after, before);
    assert!(before.iter().all(|i| i.is_some()));
    let same: Vec<_> = ["/", "/e", "/e/keep", "/e/g"].iter().map(|p| ino(&mut fs, p)).collect();
    assert_eq!(same, others);
    assert_eq!(fs.read("/e/moved/sub/f").unwrap(), b"deep");
    for p in ["/d", "/d/sub", "/d/sub/f", "/e/moved/other"] {
        assert!(fs.stat(p).is_none());
    }
}

#[test]
fn creating_and_removing_touch_one_place() {
    let mut fs = Db::new();
    fs.mkdir("/d").unwrap();
    fs.write("/d/a", b"a").unwrap();
    let seen = |fs: &mut Db| -> Vec<_> {
        ["/", "/d", "/d/a", "/d/a/b", "/x"].iter().map(|p| fs.stat(p).map(|s| s.ino)).collect()
    };
    let before = seen(&mut fs);
    fs.write("/d/b", b"b").unwrap();
    fs.mkdir("/e").unwrap();
    assert_eq!(seen(&mut fs), before);
    fs.remove("/d/b").unwrap();
    fs.remove("/e").unwrap();
    assert_eq!(seen(&mut fs), before);
}

#[test]
fn renames_that_are_refused() {
    let mut fs = Db::new();
    fs.mkdir("/d").unwrap();
    fs.mkdir("/e").unwrap();
    fs.write("/e/f", b"x").unwrap();
    let refusal = |r: Result<(), OpError>| match r {
        Err(OpError::Fs(e)) => e,
        _ => panic!("expected a numbered error"),
    };
    assert_eq!(refusal(fs.rename("/", "/x")), FsError::RootOperation);
    assert_eq!(refusal(fs.rename("/none", "/x")), FsError::NotFound);
    assert_eq!(refusal(fs.rename("/d", "/d/sub")), FsError::InvalidRename);
    assert_eq!(refusal(fs.rename("/d", "/e")), FsError::NotEmpty);
    assert_eq!(refusal(fs.rename("/d", "/e/f")), FsError::NotADirectory);
    assert_eq!(refusal(fs.rename("/e/f", "/d")), FsError::IsADirectory);
}

#[test]
fn paths_are_settled() {
    let mut fs = Db::new();
    fs.mkdir("/d").unwrap();
    fs.write("/d/../x", b"1").unwrap();
    assert_eq!(fs.read("/x").unwrap(), b"1");
    assert_eq!(fs.read("/d/./../x/").unwrap(), b"1");
}

#[test]
fn errors_have_numbers_and_messages() {
    let all = [
        (FsError::NotFound, 2),
        (FsError::AlreadyExists, 17),
        (FsError::NotEmpty, 39),
        (FsError::NotADirectory, 20),
        (FsError::IsADirectory, 21),
        (FsError::NotASymlink, 22),
        (FsError::InvalidPath, 22),
        (FsError::RootOperation, 1),
        (FsError::SymlinkLoop, 40),
        (FsError::InvalidRename, 22),
        (FsError::NameTooLong, 36),
    ];
    for (e, n) in all {
        assert_eq!(e.to_errno(), n);
        assert!(!e.message().is_empty());
    }
    assert_eq!(Errno::Io.code(), 5);
    assert_eq!(Errno::BadHandle.code(), 9);
    assert_eq!(Errno::Access.code(), 13);
    assert_eq!(Errno::NotImplemented.code(), 38);
    assert_eq!(Errno::Protocol.code(), 71);
    assert_eq!(OpError::Fs(FsError::NotEmpty).to_string(), "Directory not empty");
}
