//! The overlay, over two trees in memory.

use agentfs::fs::types::{FsError, Stats};
use agentfs::overlay::calls::{
    Call, Failure, FilesystemStats, Layer, LayerCall, LayerFailure, LayerReply, Reply,
    NO_WHITEOUTS,
};
use agentfs::overlay::ops;
use agentfs::overlay::ops::OverlayFS;
use agentfs::plan::Step;
use std::collections::{BTreeMap, BTreeSet};

#[derive(Clone, Debug, PartialEq)]
enum Node {
    Dir,
    File(Vec<u8>),
    Link(String),
}

#[derive(Clone, Debug, PartialEq)]
struct Tree {
    nodes: BTreeMap<String, Node>,
}

impl Tree {
    fn new() -> Tree {
        let mut nodes = BTreeMap::new();
        nodes.insert("/".to_string(), Node::Dir);
        Tree { nodes }
    }

    fn stats(&self, path: &str) -> Option<Stats> {
        let (mode, size) = match self.nodes.get(path)? {
            Node::Dir => (0o040755, 0),
            Node::File(d) => (0o100644, d.len() as i64),
            Node::Link(t) => (0o120777, t.len() as i64),
        };
        Some(Stats { ino: 1, mode, nlink: 1, uid: 0, gid: 0, size, atime: 0, mtime: 0, ctime: 0 })
    }

    fn parent(path: &str) -> String {
        match path.rfind('/') {
            Some(0) | None => "/".to_string(),
            Some(i) => path[..i].to_string(),
        }
    }

    fn names(&self, path: &str) -> Option<Vec<String>> {
        if self.nodes.get(path) != Some(&Node::Dir) {
            return None;
        }
        Some(
            self.nodes
                .keys()
                .filter(|k| k.as_str() != "/" && Tree::parent(k) == path)
                .map(|k| k.rsplit('/').next().unwrap().to_string())
                .collect(),
        )
    }
}

struct Overlay {
    base: Tree,
    delta: Tree,
    whiteouts: BTreeSet<String>,
    log: Vec<String>,
}

fn failed(e: FsError) -> LayerReply {
    Reply::Failed(Failure::Fs(e))
}

impl Overlay {
    fn new() -> Overlay {
        let mut base = Tree::new();
        base.nodes.insert("/base.txt".to_string(), Node::File(b"base content".to_vec()));
        base.nodes.insert("/subdir".to_string(), Node::Dir);
        base.nodes.insert("/subdir/nested.txt".to_string(), Node::File(b"nested".to_vec()));
        Overlay { base, delta: Tree::new(), whiteouts: BTreeSet::new(), log: Vec::new() }
    }

    fn layer(&self, l: Layer) -> &Tree {
        match l {
            Layer::Base => &self.base,
            Layer::Delta => &self.delta,
        }
    }

    fn put(&mut self, path: String, node: Node) -> LayerReply {
        if self.delta.nodes.get(&Tree::parent(&path)) != Some(&Node::Dir) {
            return failed(FsError::NotFound);
        }
        self.delta.nodes.insert(path, node);
        Reply::Done
    }

    fn execute(&mut self, q: LayerCall) -> LayerReply {
        self.log.push(format!("{:?}", q));
        match q {
            Call::HasWhiteout { path } => Reply::Flag(self.whiteouts.contains(&path)),
            Call::AddWhiteout { path, .. } => {
                self.whiteouts.insert(path);
                Reply::Done
            }
            Call::DropWhiteout { path } => {
                self.whiteouts.remove(&path);
                Reply::Done
            }
            Call::WhiteoutsUnder { prefix } => Reply::Names(Some(
                self.whiteouts.iter().filter(|w| w.starts_with(&prefix)).cloned().collect(),
            )),
            Call::Stat { layer, path } | Call::Lstat { layer, path } => {
                Reply::Stats(self.layer(layer).stats(&path))
            }
            Call::ReadFile { layer, path } => match self.layer(layer).nodes.get(&path) {
                Some(Node::File(d)) => Reply::Bytes(Some(d.clone())),
                _ => Reply::Bytes(None),
            },
            Call::Pread { layer, path, offset, size } => {
                match self.layer(layer).nodes.get(&path) {
                    Some(Node::File(d)) => {
                        let from = (offset as usize).min(d.len());
                        let to = (from + size as usize).min(d.len());
                        Reply::Bytes(Some(d[from..to].to_vec()))
                    }
                    _ => Reply::Bytes(None),
                }
            }
            Call::Readdir { layer, path } => Reply::Names(self.layer(layer).names(&path)),
            Call::Readlink { layer, path } => match self.layer(layer).nodes.get(&path) {
                Some(Node::Link(t)) => Reply::Target(Some(t.clone())),
                _ => Reply::Target(None),
            },
            Call::Mkdir { path } => {
                if self.delta.nodes.contains_key(&path) {
                    return failed(FsError::AlreadyExists);
                }
                self.put(path, Node::Dir)
            }
            Call::WriteFile { path, data } => self.put(path, Node::File(data)),
            Call::Pwrite { path, offset, data } => match self.delta.nodes.get_mut(&path) {
                Some(Node::File(d)) => {
                    let end = offset as usize + data.len();
                    if d.len() < end {
                        d.resize(end, 0);
                    }
                    d[offset as usize..end].copy_from_slice(&data);
                    Reply::Done
                }
                _ => failed(FsError::NotFound),
            },
            Call::Truncate { path, size } => match self.delta.nodes.get_mut(&path) {
                Some(Node::File(d)) => {
                    d.resize(size as usize, 0);
                    Reply::Done
                }
                _ => failed(FsError::NotFound),
            },
            Call::Remove { path } => match self.delta.nodes.remove(&path) {
                Some(_) => Reply::Done,
                None => failed(FsError::NotFound),
            },
            Call::Rename { from, to } => {
                if !self.delta.nodes.contains_key(&from) {
                    return failed(FsError::NotFound);
                }
                let below = format!("{}/", from);
                let moving: Vec<String> = self
                    .delta
                    .nodes
                    .keys()
                    .filter(|k| **k == from || k.starts_with(&below))
                    .cloned()
                    .collect();
                for k in moving {
                    let n = self.delta.nodes.remove(&k).unwrap();
                    self.delta.nodes.insert(format!("{}{}", to, &k[from.len()..]), n);
                }
                Reply::Done
            }
            Call::Symlink { target, path } => self.put(path, Node::Link(target)),
            Call::Statfs => Reply::Usage(FilesystemStats {
                inodes: self.delta.nodes.len() as u64,
                bytes_used: 4096,
            }),
        }
    }

    fn run<T>(&mut self, op: impl Fn(&Vec<LayerReply>) -> Step<LayerCall, T>) -> T {
        let mut replies = Vec::new();
        loop {
            match op(&replies) {
                Step::Done(t) => return t,
                Step::Ask(q) => {
                    let r = self.execute(q);
                    replies.push(r);
                }
            }
        }
    }

    fn read(&mut self, p: &str) -> Option<Vec<u8>> {
        self.run(|r| OverlayFS::read_file(p, r)).unwrap()
    }

    fn write(&mut self, p: &str, d: &[u8]) {
        self.run(|r| OverlayFS::write_file(p, d, r)).unwrap()
    }

    fn stat(&mut self, p: &str) -> Option<Stats> {
        self.run(|r| OverlayFS::stat(p, r)).unwrap()
    }

    fn remove(&mut self, p: &str) -> Result<(), LayerFailure> {
        self.run(|r| OverlayFS::remove(p, 5, r))
    }

    fn list(&mut self, p: &str) -> Vec<String> {
        self.run(|r| OverlayFS::readdir(p, r)).unwrap().unwrap()
    }

    fn rename(&mut self, from: &str, to: &str) -> Result<(), LayerFailure> {
        self.run(|r| OverlayFS::rename(from, to, 5, r))
    }
}

#[test]
fn test_overlay_read_from_base() {
    let mut overlay = Overlay::new();
    let data = overlay.read("/base.txt").unwrap();
    assert_eq!(data, b"base content");
}

#[test]
fn test_overlay_write_to_delta() {
    let mut overlay = Overlay::new();
    overlay.write("/new.txt", b"new content");
    let data = overlay.read("/new.txt").unwrap();
    assert_eq!(data, b"new content");
}

#[test]
fn test_overlay_copy_on_write() {
    let mut overlay = Overlay::new();
    overlay.run(|r| OverlayFS::pwrite("/base.txt", 0, b"modified", r)).unwrap();
    let data = overlay.read("/base.txt").unwrap();
    assert_eq!(&data[..8], b"modified");
    assert_eq!(overlay.base.nodes.get("/base.txt"), Some(&Node::File(b"base content".to_vec())));
}

#[test]
fn test_overlay_whiteout() {
    let mut overlay = Overlay::new();
    assert!(overlay.stat("/base.txt").is_some());
    overlay.remove("/base.txt").unwrap();
    assert!(overlay.stat("/base.txt").is_none());
    assert!(overlay.read("/base.txt").is_none());
}

#[test]
fn test_overlay_readdir_merge() {
    let mut overlay = Overlay::new();
    overlay.write("/delta.txt", b"delta");
    let entries = overlay.list("/");
    assert!(entries.contains(&"base.txt".to_string()));
    assert!(entries.contains(&"delta.txt".to_string()));
    assert!(entries.contains(&"subdir".to_string()));
}

#[test]
fn test_overlay_readdir_with_whiteout() {
    let mut overlay = Overlay::new();
    overlay.remove("/base.txt").unwrap();
    let entries = overlay.list("/");
    assert!(!entries.contains(&"base.txt".to_string()));
    assert!(entries.contains(&"subdir".to_string()));
}

#[test]
fn test_overlay_recreate_deleted() {
    let mut overlay = Overlay::new();
    overlay.remove("/base.txt").unwrap();
    assert!(overlay.stat("/base.txt").is_none());
    overlay.write("/base.txt", b"recreated");
    let data = overlay.read("/base.txt").unwrap();
    assert_eq!(data, b"recreated");
}

#[test]
fn whiteout_of_a_directory_hides_what_is_in_it() {
    let mut overlay = Overlay::new();
    overlay.whiteouts.insert("/subdir".to_string());
    assert!(overlay.read("/subdir/nested.txt").is_none());
    assert!(overlay.stat("/subdir").is_none());
}

#[test]
fn nested_whiteout_is_no_child_of_the_root() {
    let mut overlay = Overlay::new();
    overlay.remove("/subdir/nested.txt").unwrap();
    assert_eq!(overlay.list("/"), vec!["base.txt", "subdir"]);
    assert!(overlay.list("/subdir").is_empty());
    assert_eq!(
        ops::get_child_whiteouts("/", &vec!["/a".to_string(), "/a/b".to_string()]),
        vec!["a"]
    );
}

#[test]
fn truncate_copies_up_first() {
    let mut overlay = Overlay::new();
    overlay.run(|r| OverlayFS::truncate("/base.txt", 4, r)).unwrap();
    assert_eq!(overlay.read("/base.txt").unwrap(), b"base");
    assert_eq!(overlay.run(|r| OverlayFS::pread("/base.txt", 1, 2, r)).unwrap().unwrap(), b"as");
}

#[test]
fn links_and_directories_are_made_in_the_delta() {
    let mut overlay = Overlay::new();
    overlay.run(|r| OverlayFS::mkdir("/d", r)).unwrap();
    overlay.run(|r| OverlayFS::symlink("base.txt", "/d/l", r)).unwrap();
    assert_eq!(overlay.run(|r| OverlayFS::readlink("/d/l", r)).unwrap().unwrap(), "base.txt");
    assert!(overlay.run(|r| OverlayFS::lstat("/d/l", r)).unwrap().unwrap().is_symlink());
    assert!(overlay.run(|r| OverlayFS::mkdir("/subdir", r)).is_err());
}

#[test]
fn renamed_file_is_read_under_its_new_name() {
    let mut overlay = Overlay::new();
    let base = overlay.base.clone();
    overlay.rename("/base.txt", "/moved.txt").unwrap();
    assert!(overlay.stat("/base.txt").is_none());
    assert_eq!(overlay.read("/moved.txt").unwrap(), b"base content");
    assert_eq!(overlay.list("/"), vec!["moved.txt", "subdir"]);
    assert_eq!(overlay.base, base);
}

#[test]
fn renamed_directory_takes_its_contents_along() {
    let mut overlay = Overlay::new();
    overlay.base.nodes.insert("/subdir/l".to_string(), Node::Link("nested.txt".to_string()));
    overlay.base.nodes.insert("/subdir/deep".to_string(), Node::Dir);
    overlay.base.nodes.insert("/subdir/deep/f".to_string(), Node::File(b"deep".to_vec()));
    overlay.rename("/subdir", "/moved").unwrap();
    assert!(overlay.stat("/subdir").is_none());
    assert!(overlay.stat("/subdir/nested.txt").is_none());
    assert_eq!(overlay.read("/moved/nested.txt").unwrap(), b"nested");
    assert_eq!(overlay.read("/moved/deep/f").unwrap(), b"deep");
    let link = overlay.run(|r| OverlayFS::readlink("/moved/l", r)).unwrap();
    assert_eq!(link, Some("nested.txt".to_string()));
    assert_eq!(overlay.list("/moved"), vec!["deep", "l", "nested.txt"]);
}

#[test]
fn without_a_list_of_whiteouts_only_reading_works() {
    let run = |op: &dyn Fn(&Vec<LayerReply>) -> Step<LayerCall, Result<bool, LayerFailure>>| {
        let mut overlay = Overlay::new();
        let mut replies = Vec::new();
        loop {
            match op(&replies) {
                Step::Done(r) => return r,
                Step::Ask(
                    Call::HasWhiteout { .. }
                    | Call::AddWhiteout { .. }
                    | Call::DropWhiteout { .. }
                    | Call::WhiteoutsUnder { .. },
                ) => replies.push(Reply::NoTable),
                Step::Ask(q) => replies.push(overlay.execute(q)),
            }
        }
    };
    let read = run(&|r| match OverlayFS::read_file("/base.txt", r) {
        Step::Ask(q) => Step::Ask(q),
        Step::Done(d) => Step::Done(d.map(|d| d.is_some())),
    });
    assert!(matches!(read, Ok(true)));
    let list = run(&|r| match OverlayFS::readdir("/", r) {
        Step::Ask(q) => Step::Ask(q),
        Step::Done(d) => Step::Done(d.map(|d| d.is_some())),
    });
    assert!(matches!(list, Err(Failure::Layer(m)) if m == NO_WHITEOUTS));
    let write = run(&|r| match OverlayFS::write_file("/new.txt", b"x", r) {
        Step::Ask(q) => Step::Ask(q),
        Step::Done(d) => Step::Done(d.map(|_| true)),
    });
    assert!(matches!(write, Err(Failure::Layer(m)) if m == NO_WHITEOUTS));
    let remove = run(&|r| match OverlayFS::remove("/base.txt", 5, r) {
        Step::Ask(q) => Step::Ask(q),
        Step::Done(d) => Step::Done(d.map(|_| true)),
    });
    assert!(matches!(remove, Err(Failure::Layer(m)) if m == NO_WHITEOUTS));
}

#[test]
fn renaming_replaces_a_file_of_the_delta() {
    let mut overlay = Overlay::new();
    overlay.write("/new.txt", b"in the delta");
    overlay.rename("/base.txt", "/new.txt").unwrap();
    assert_eq!(overlay.read("/new.txt").unwrap(), b"base content");
    assert!(overlay.stat("/base.txt").is_none());
    overlay.write("/again.txt", b"again");
    overlay.rename("/again.txt", "/new.txt").unwrap();
    assert_eq!(overlay.read("/new.txt").unwrap(), b"again");
    assert!(overlay.stat("/again.txt").is_none());
}

#[test]
fn moving_a_directory_of_the_delta_takes_its_entries_along() {
    let mut overlay = Overlay::new();
    overlay.write("/subdir/own.txt", b"own");
    overlay.rename("/subdir", "/moved").unwrap();
    assert_eq!(overlay.read("/moved/own.txt").unwrap(), b"own");
    for p in ["/subdir", "/subdir/own.txt", "/subdir/nested.txt"] {
        assert!(overlay.stat(p).is_none());
    }
}

#[test]
fn writing_and_removing_leave_the_rest_alone() {
    let mut overlay = Overlay::new();
    overlay.write("/subdir/own.txt", b"own");
    assert_eq!(overlay.read("/base.txt").unwrap(), b"base content");
    assert_eq!(overlay.read("/subdir/nested.txt").unwrap(), b"nested");
    overlay.remove("/subdir/own.txt").unwrap();
    overlay.remove("/base.txt").unwrap();
    assert_eq!(overlay.read("/subdir/nested.txt").unwrap(), b"nested");
    assert!(overlay.stat("/subdir").is_some());
}

#[test]
fn renaming_what_is_not_there_fails() {
    let mut overlay = Overlay::new();
    assert!(matches!(
        overlay.rename("/ghost", "/moved"),
        Err(Failure::Fs(FsError::NotFound))
    ));
}

#[test]
fn failed_copy_ends_the_rename() {
    let replies = vec![
        Reply::Stats(None),
        Reply::Stats(Overlay::new().base.stats("/subdir")),
        failed(FsError::AlreadyExists),
    ];
    assert!(matches!(
        OverlayFS::rename("/subdir", "/moved", 5, &replies),
        Step::Done(Err(Failure::Fs(FsError::AlreadyExists)))
    ));
}

#[test]
fn part_of_a_file_is_read() {
    let mut overlay = Overlay::new();
    let all = overlay.read("/base.txt").unwrap();
    let part = overlay.run(|r| OverlayFS::pread("/base.txt", 5, 3, r)).unwrap().unwrap();
    assert_eq!(part, all[5..8]);
    assert!(overlay.run(|r| OverlayFS::pread("/ghost", 0, 1, r)).unwrap().is_none());
}

#[test]
fn truncating_what_is_not_there_fails() {
    let mut overlay = Overlay::new();
    assert!(matches!(
        overlay.run(|r| OverlayFS::truncate("/ghost", 4, r)),
        Err(Failure::Fs(FsError::NotFound))
    ));
}

#[test]
fn directory_is_created_once_over_the_base() {
    let mut overlay = Overlay::new();
    overlay.run(|r| OverlayFS::mkdir("/new/", r)).unwrap();
    assert!(overlay.stat("/new").unwrap().is_directory());
    assert!(matches!(
        overlay.run(|r| OverlayFS::mkdir("/new", r)),
        Err(Failure::Fs(FsError::AlreadyExists))
    ));
}

#[test]
fn written_file_is_listed_and_removed_file_is_not() {
    let mut overlay = Overlay::new();
    overlay.write("/subdir/more.txt", b"more");
    assert_eq!(overlay.list("/subdir"), vec!["more.txt", "nested.txt"]);
    overlay.remove("/subdir/more.txt").unwrap();
    overlay.remove("/subdir/nested.txt").unwrap();
    assert!(overlay.list("/subdir").is_empty());
}

#[test]
fn removing_what_is_not_there_fails() {
    let mut overlay = Overlay::new();
    assert!(overlay.remove("/ghost").is_err());
    assert!(!overlay.log.is_empty());
}

#[test]
fn usage_is_that_of_the_delta() {
    let mut overlay = Overlay::new();
    overlay.write("/new.txt", b"new");
    let usage = overlay.run(|r| OverlayFS::statfs(r)).unwrap();
    assert_eq!(usage, FilesystemStats { inodes: 2, bytes_used: 4096 });
    assert!(matches!(
        OverlayFS::statfs(&vec![failed(FsError::NotFound)]),
        Step::Done(Err(Failure::Fs(FsError::NotFound)))
    ));
}
