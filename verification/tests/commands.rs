//! What the commands decide.

use agentfs::cmd::daemon::{check_ready, exit_code, signal_parent, wait_for_signal};
use agentfs::cmd::init::{
    agent_id, init_database, summary_lines, InitCall, InitReply, InitRequest, InitResponse, OverlayStep,
};
use agentfs::cmd::mount::{directory_above, is_mounted, mount, overlay_base, MountArgs, Platform};
use agentfs::cmd::ps::{ps, session, Found};
use agentfs::cmd::run_nfs::{
    find_available_port, mount_args, mount_nfs, run_dir, session_paths, setup_run_directory,
    unmount, Heard, PortSearch, Unmounting,
};
use agentfs::cmd::run_stub::{run_sandbox, MountConfig};
use agentfs::cmd::{mount_stub, run_nfs};
use agentfs::fs::store::Cell;
use agentfs::options::{AgentFSOptions, ResolveError};
use agentfs::plan::Step;

fn s(t: &str) -> String {
    t.to_string()
}

#[test]
fn parent_waits_for_the_child() {
    assert_eq!(check_ready(true, false, 0, 10), Some(true));
    assert_eq!(check_ready(false, true, 0, 10), Some(false));
    assert_eq!(check_ready(false, false, 10, 10), Some(false));
    assert_eq!(check_ready(false, false, 9, 10), None);
    assert!(wait_for_signal(Some(signal_parent(true))));
    assert!(!wait_for_signal(Some(signal_parent(false))));
    assert!(!wait_for_signal(None));
    assert_eq!((exit_code(true, true), exit_code(true, false), exit_code(false, true)), (0, 1, 1));
}

fn drive_init(
    id: &str,
    force: bool,
    base: Option<&str>,
    replies: Vec<InitResponse>,
) -> (Vec<InitRequest>, Result<Vec<String>, String>) {
    let base = base.map(s);
    let mut given: Vec<InitResponse> = Vec::new();
    let mut asked = Vec::new();
    let mut coming = replies.into_iter();
    loop {
        match init_database(id, force, &base, &given) {
            Step::Done(r) => return (asked, r.map_err(|e| e.to_string())),
            Step::Ask(q) => {
                asked.push(q);
                given.push(coming.next().expect("another reply"));
            }
        }
    }
}

#[test]
fn agents_are_set_up_once() {
    let yes = || InitReply::Flag(true);
    let no = || InitReply::Flag(false);
    let (asked, r) = drive_init("a", false, None, vec![no(), InitReply::Done]);
    assert!(matches!(&asked[0], InitCall::Exists { path } if path == ".agentfs/a.db"));
    assert!(matches!(&asked[1], InitCall::Open { id } if id == "a"));
    assert_eq!(r.unwrap(), vec!["Created agent filesystem: .agentfs/a.db", "Agent ID: a"]);
    let says = |force: bool, base: Option<&str>, replies: Vec<InitResponse>| {
        drive_init("a", force, base, replies).1.unwrap_err()
    };
    assert_eq!(
        says(false, None, vec![yes()]),
        "Agent 'a' already exists at '.agentfs/a.db'. Use --force to overwrite."
    );
    assert!(drive_init("a", true, None, vec![no(), InitReply::Done]).1.is_ok());
    assert_eq!(says(true, None, vec![yes(), InitReply::Failed]), "Failed to initialize database");
    assert_eq!(
        says(true, None, vec![yes(), InitReply::Done, InitReply::Failed]),
        "Failed to initialize database"
    );
    assert_eq!(says(false, Some("/b"), vec![no()]), "Base directory does not exist: /b");
    assert_eq!(says(false, Some("/b"), vec![yes(), no()]), "Base path is not a directory: /b");
    assert_eq!(
        drive_init("../a", false, None, vec![]).1.unwrap_err(),
        "Invalid agent ID '../a'. Agent IDs must contain only alphanumeric characters, hyphens, and underscores."
    );
    assert_eq!(agent_id(Some(s("x")), 5), "x");
    assert_eq!(agent_id(None, 1700000000), "agent-1700000000");
    assert!(drive_init(&agent_id(None, 5), false, None, vec![no(), InitReply::Done]).1.is_ok());
}

/// Sets the agent `a` up on a disk that holds at most one database, with its files.
fn init_on_disk(disk: &mut Option<Vec<&str>>, force: bool) -> Result<Vec<String>, String> {
    let mut replies: Vec<InitResponse> = Vec::new();
    loop {
        match init_database("a", force, &None, &replies) {
            Step::Done(r) => return r.map_err(|e| e.to_string()),
            Step::Ask(InitCall::Exists { path }) => {
                assert_eq!(path, ".agentfs/a.db");
                replies.push(InitReply::Flag(disk.is_some()));
            }
            Step::Ask(InitCall::Remove { path }) => {
                assert_eq!(path, ".agentfs/a.db");
                *disk = None;
                replies.push(InitReply::Done);
            }
            Step::Ask(InitCall::Open { id }) => {
                assert_eq!(id, "a");
                disk.get_or_insert_with(Vec::new);
                replies.push(InitReply::Done);
            }
            Step::Ask(q) => panic!("{:?}", q),
        }
    }
}

#[test]
fn force_overwrites_what_is_there() {
    let mut disk = None;
    assert!(init_on_disk(&mut disk, false).is_ok());
    disk.as_mut().unwrap().push("/notes.txt");
    assert!(init_on_disk(&mut disk, false).is_err());
    assert_eq!(disk, Some(vec!["/notes.txt"]));
    assert!(init_on_disk(&mut disk, true).is_ok());
    assert_eq!(disk, Some(vec![]));
    let mut disk = None;
    assert!(init_on_disk(&mut disk, true).is_ok());
    assert_eq!(disk, Some(vec![]));
}

#[test]
fn overlays_are_set_up() {
    let start = || vec![InitReply::Flag(true), InitReply::Flag(true), InitReply::Flag(false), InitReply::Done];
    let with = |more: Vec<InitResponse>| {
        let mut all = start();
        all.extend(more);
        drive_init("a", false, Some("b"), all)
    };
    let done = || InitReply::Done;
    let path = || InitReply::Path(s("/real/b"));
    let (asked, r) = with(vec![done(), done(), path(), done(), done()]);
    assert!(matches!(&asked[4], InitCall::Execute { step: OverlayStep::CreateWhiteouts }));
    assert!(matches!(&asked[5], InitCall::Execute { step: OverlayStep::CreateConfig }));
    assert!(matches!(&asked[6], InitCall::Resolve { path } if path == "b"));
    assert!(matches!(&asked[7], InitCall::Execute { step: OverlayStep::StoreBaseType }));
    assert!(matches!(
        &asked[8],
        InitCall::Execute { step: OverlayStep::StoreBasePath(p) } if p == "/real/b"
    ));
    assert_eq!(r.unwrap(), summary_lines("a", &Some(s("/real/b"))));
    assert_eq!(
        summary_lines("a", &Some(s("/b"))),
        vec!["Created overlay filesystem: .agentfs/a.db", "Agent ID: a", "Base: /b"]
    );
    let failed = || InitReply::Failed;
    let says = |more: Vec<InitResponse>| with(more).1.unwrap_err();
    assert_eq!(says(vec![failed()]), "Failed to create whiteout table");
    assert_eq!(says(vec![done(), failed()]), "Failed to create overlay config table");
    assert_eq!(says(vec![done(), done(), failed()]), "Failed to canonicalize base path");
    assert_eq!(says(vec![done(), done(), path(), failed()]), "Failed to store base type");
    assert_eq!(says(vec![done(), done(), path(), done(), failed()]), "Failed to store base path");
}

fn args() -> MountArgs {
    MountArgs {
        id_or_path: s("a"),
        mountpoint: s("/mnt"),
        auto_unmount: true,
        allow_root: false,
        foreground: true,
        uid: Some(1),
        gid: None,
    }
}

#[test]
fn mounting_needs_a_mountpoint() {
    let ok = || Ok(AgentFSOptions::with_path("x.db"));
    let m = mount(args(), Platform::Linux, ok(), Some(s("/full/x.db")), true).unwrap();
    let f = m.fuse;
    assert_eq!(m.options.path, Some(s("x.db")));
    assert_eq!((f.fsname.as_str(), f.mountpoint.as_str()), ("/full/x.db", "/mnt"));
    assert_eq!((f.auto_unmount, f.allow_root, f.uid, f.gid), (true, false, Some(1), None));
    assert_eq!(m.wait_ms, None);
    let behind = MountArgs { foreground: false, ..args() };
    let m = mount(behind, Platform::Linux, ok(), None, true).unwrap();
    assert_eq!(m.fuse.fsname, "a");
    assert_eq!(m.wait_ms, Some(10000));
    assert_eq!(
        mount(args(), Platform::Linux, ok(), None, false).err().unwrap(),
        "Mountpoint does not exist: /mnt"
    );
    let e = ResolveError::NotFound(s("a"));
    let message = e.to_string();
    assert_eq!(mount(args(), Platform::Linux, Err(e), None, false).err().unwrap(), message);
    assert_eq!(
        mount(args(), Platform::MacOs, ok(), None, true).err().unwrap(),
        "FUSE mounting is not supported on macOS in this version.\nUse `agentfs nfs` to mount via NFS instead."
    );
}

#[test]
fn mountpoints_lie_on_another_device() {
    assert_eq!(directory_above(Some(s("/a"))), "/a");
    assert_eq!((directory_above(Some(s(""))), directory_above(None)), (s("/"), s("/")));
    assert!(is_mounted(Some(1), Some(2)));
    assert!(!is_mounted(Some(1), Some(1)));
    assert!(!is_mounted(None, Some(1)) && !is_mounted(Some(1), None));
    assert_eq!(overlay_base(Some(&Cell::Text(s("/b")))), Some(s("/b")));
    assert_eq!(overlay_base(Some(&Cell::Integer(1))), None);
    assert_eq!(overlay_base(None), None);
}

#[test]
fn stubs_say_no() {
    let m = mount_stub::MountArgs {
        id_or_path: s("a"),
        mountpoint: s("m"),
        auto_unmount: false,
        allow_root: false,
        foreground: false,
    };
    assert!(mount_stub::mount(m).is_err());
    let e: Result<MountConfig, String> = "type=bind,src=a,dst=b".parse();
    assert_eq!(e.unwrap_err(), "Mount configuration is only supported on Linux");
    let (lines, code) = run_sandbox();
    assert_eq!(code, 1);
    assert_eq!(lines[0], "Error: Sandbox is available only on Linux.");
}

fn found(name: &str, is_dir: bool, has_delta: bool) -> Found {
    Found { name: Some(s(name)), path: format!("/run/{}", name), is_dir, has_delta }
}

#[test]
fn sessions_are_listed() {
    let all = vec![
        found("b", true, true),
        found("a", true, true),
        found("file", false, true),
        found("empty", true, false),
        Found { name: None, path: s("/run/?"), is_dir: true, has_delta: true },
    ];
    let mounted = vec![s("b")];
    assert_eq!(
        ps(&all, &mounted, "/run", true),
        "SESSION ID  MOUNTPOINT  STATUS\na           -           stopped\nb           /run/b/mnt  running\n"
    );
    assert_eq!(
        ps(&all, &mounted, "/run", false),
        "SESSION ID  MOUNTPOINT  STATUS\nb           /run/b/mnt  running\n"
    );
    assert_eq!(
        ps(&all, &vec![], "/run", false),
        "No running sandbox sessions. Use -a to show all sessions.\n"
    );
    assert_eq!(ps(&vec![], &vec![], "/run", true), "No sandbox sessions found in /run\n");
    assert!(session(&all[0], &mounted).unwrap().mountpoint.is_some());
    assert!(session(&all[1], &mounted).unwrap().mountpoint.is_none());
    assert!(session(&all[2], &mounted).is_none());
}

#[test]
fn first_free_port_is_taken() {
    assert!(matches!(find_available_port(11111, &vec![]), PortSearch::Try(11111)));
    assert!(matches!(find_available_port(11111, &vec![false]), PortSearch::Try(11112)));
    assert!(matches!(find_available_port(11111, &vec![false, true]), PortSearch::Found(11112)));
    match find_available_port(11111, &vec![false; 100]) {
        PortSearch::Failed(m) => {
            assert_eq!(m, "Could not find an available port in range 11111-11211")
        }
        _ => panic!("found a port"),
    }
}

#[test]
fn sessions_lie_below_home() {
    assert_eq!(run_dir(&Some(s("/home/u"))), "/home/u/.agentfs/run");
    assert_eq!(run_dir(&None), "./.agentfs/run");
    let p = session_paths("/h", "id");
    assert_eq!(p.run_dir, "/h/.agentfs/run/id");
    assert_eq!(p.db_path, "/h/.agentfs/run/id/delta.db");
    assert_eq!(p.mountpoint, "/h/.agentfs/run/id/mnt");
    assert_eq!(p.zsh_dir, "/h/.agentfs/run/id/zsh");
    let a = setup_run_directory("/h");
    let b = setup_run_directory("/h");
    assert_ne!(a.run_dir, b.run_dir);
    let id = &a.run_dir["/h/.agentfs/run/".len()..];
    assert_eq!(id.len(), 36);
    assert_eq!(id.chars().filter(|c| *c == '-').count(), 4);
}

#[test]
fn network_mounts() {
    assert_eq!(
        mount_args(2049, "/m", false),
        vec![
            "-t",
            "nfs",
            "-o",
            "vers=3,tcp,port=2049,mountport=2049,nolock,soft,timeo=10,retrans=2",
            "127.0.0.1:/",
            "/m",
        ]
    );
    assert_eq!(mount_args(2049, "/m", true)[0], "-o");
    assert!(mount_args(2049, "/m", true)[1].starts_with("nolocks,"));
    assert_eq!(mount_nfs(true, "", false), Ok(()));
    assert!(mount_nfs(false, "no way", false).unwrap_err().contains("no way"));
    let heard = |success: bool| Heard { success, said: s("busy") };
    assert!(matches!(unmount(&vec![], "/m", false), Unmounting::Run { force: false }));
    assert!(matches!(unmount(&vec![heard(true)], "/m", false), Unmounting::Done));
    assert!(matches!(unmount(&vec![heard(false)], "/m", false), Unmounting::Run { force: true }));
    assert!(matches!(unmount(&vec![heard(false), heard(true)], "/m", false), Unmounting::Done));
    assert!(matches!(
        unmount(&vec![heard(false), heard(false)], "/m", false),
        Unmounting::Failed(m) if m.contains("/m")
    ));
    assert_eq!((run_nfs::exit_code(Some(3)), run_nfs::exit_code(None)), (3, 1));
}
