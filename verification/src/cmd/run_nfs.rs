//! Running a command in a directory that is served over the network.

use crate::clock;
use crate::cmd::ps;
use crate::text;
use vstd::prelude::*;
use vstd::string::*;

verus! {

/// The port that is tried first.
pub const DEFAULT_NFS_PORT: u32 = 11111;

/// How many ports are tried.
pub const PORTS_TRIED: u32 = 100;

/// How far the search for a port has got.
#[derive(Debug)]
pub enum PortSearch<S> {
    Try(u32),
    Found(u32),
    Failed(S),
}

/// Which of the ports that were tried is the first that was free.
pub open spec fn first_free(free: Seq<bool>, n: int) -> Option<int>
    decreases n,
{
    if n <= 0 {
        None
    } else if first_free(free, n - 1) is Some {
        first_free(free, n - 1)
    } else if free[n - 1] {
        Some(n - 1)
    } else {
        None
    }
}

/// What the search for a port does next, after ports were found free or not.
pub open spec fn search(start: u32, free: Seq<bool>) -> PortSearch<Seq<char>> {
    match first_free(free, free.len() as int) {
        Some(i) => PortSearch::Found((start + i) as u32),
        None => if free.len() < PORTS_TRIED {
            PortSearch::Try((start + free.len()) as u32)
        } else {
            PortSearch::Failed(
                "Could not find an available port in range "@ + text::decimal(start as nat) + "-"@
                    + text::decimal((start + PORTS_TRIED) as nat),
            )
        },
    }
}

pub open spec fn search_view(s: PortSearch<String>) -> PortSearch<Seq<char>> {
    match s {
        PortSearch::Try(p) => PortSearch::Try(p),
        PortSearch::Found(p) => PortSearch::Found(p),
        PortSearch::Failed(m) => PortSearch::Failed(m@),
    }
}

/// What the search for a port does next.
pub fn find_available_port(start_port: u32, free: &Vec<bool>) -> (r: PortSearch<String>)
    requires
        start_port <= u32::MAX - PORTS_TRIED,
        free@.len() <= PORTS_TRIED,
    ensures
        search_view(r) == search(start_port, free@),
{
    let mut i: usize = 0;
    while i < free.len()
        invariant
            i <= free@.len() <= PORTS_TRIED,
            start_port <= u32::MAX - PORTS_TRIED,
            first_free(free@, i as int) is None,
        decreases free@.len() - i,
    {
        if free[i] {
            proof {
                lemma_first_stays(free@, i + 1, free@.len() as int);
            }
            return PortSearch::Found(start_port + i as u32);
        }
        i = i + 1;
    }
    if free.len() < PORTS_TRIED as usize {
        PortSearch::Try(start_port + free.len() as u32)
    } else {
        let mut m = text::concat3(
            "Could not find an available port in range ",
            text::decimal_u64(start_port as u64).as_str(),
            "-",
        );
        m.append(text::decimal_u64((start_port + PORTS_TRIED) as u64).as_str());
        PortSearch::Failed(m)
    }
}

proof fn lemma_first_stays(free: Seq<bool>, i: int, n: int)
    requires
        0 <= i <= n,
        first_free(free, i) is Some,
    ensures
        first_free(free, n) == first_free(free, i),
    decreases n - i,
{
    if i < n {
        lemma_first_stays(free, i, n - 1);
    }
}

/// A port that is found was free, and every one before it was not; the ports are
/// tried one after the other.
pub proof fn law_first_free_port(start: u32, free: Seq<bool>)
    requires
        start <= u32::MAX - PORTS_TRIED,
        free.len() <= PORTS_TRIED,
    ensures
        match search(start, free) {
            PortSearch::Found(p) => start <= p < start + free.len() && free[p - start] && forall|
                i: int,
            |
                0 <= i < p - start ==> !free[i],
            PortSearch::Try(p) => p == start + free.len() && forall|i: int|
                0 <= i < free.len() ==> !free[i],
            PortSearch::Failed(_) => free.len() == PORTS_TRIED && forall|i: int|
                0 <= i < free.len() ==> !free[i],
        },
{
    lemma_first_free(free, free.len() as int);
}

proof fn lemma_first_free(free: Seq<bool>, n: int)
    requires
        0 <= n <= free.len(),
    ensures
        match first_free(free, n) {
            Some(i) => 0 <= i < n && free[i] && forall|j: int| 0 <= j < i ==> !free[j],
            None => forall|j: int| 0 <= j < n ==> !free[j],
        },
    decreases n,
{
    if n > 0 {
        lemma_first_free(free, n - 1);
    }
}

/// Where the parts of a session lie.
#[derive(Debug)]
pub struct RunSession {
    pub run_dir: String,
    pub db_path: String,
    pub mountpoint: String,
    pub zsh_dir: String,
}

/// The directory of sessions below the home directory, or below the current one
/// where there is none.
pub open spec fn sessions_dir(home: Option<Seq<char>>) -> Seq<char> {
    ps::below(
        ps::below(
            match home {
                Some(h) => h,
                None => "."@,
            },
            ".agentfs"@,
        ),
        "run"@,
    )
}

/// The directory of sessions.
pub fn run_dir(home: &Option<String>) -> (r: String)
    ensures
        r@ == sessions_dir(text::opt(*home)),
{
    let home = match home {
        Some(h) => h.as_str(),
        None => ".",
    };
    ps::join_below(ps::join_below(home, ".agentfs").as_str(), "run")
}

/// Where the parts of the session `id` lie.
pub fn session_paths(home: &str, id: &str) -> (r: RunSession)
    ensures
        r.run_dir@ == ps::below(sessions_dir(Some(home@)), id@),
        r.db_path@ == ps::below(r.run_dir@, "delta.db"@),
        r.mountpoint@ == ps::below(r.run_dir@, "mnt"@),
        r.zsh_dir@ == ps::below(r.run_dir@, "zsh"@),
{
    let all = run_dir(&Some(home.to_owned()));
    let run_dir = ps::join_below(all.as_str(), id);
    RunSession {
        db_path: ps::join_below(run_dir.as_str(), "delta.db"),
        mountpoint: ps::join_below(run_dir.as_str(), "mnt"),
        zsh_dir: ps::join_below(run_dir.as_str(), "zsh"),
        run_dir,
    }
}

/// Where the parts of a new session lie; its identifier is random.
pub fn setup_run_directory(home: &str) -> (r: RunSession)
    ensures
        exists|id: Seq<char>| #[trigger]
            clock::hyphenated(id) && r.run_dir@ == ps::below(sessions_dir(Some(home@)), id),
        r.db_path@ == ps::below(r.run_dir@, "delta.db"@),
        r.mountpoint@ == ps::below(r.run_dir@, "mnt"@),
        r.zsh_dir@ == ps::below(r.run_dir@, "zsh"@),
{
    let id = clock::random_uuid();
    session_paths(home, id.as_str())
}

/// The options for mounting a directory that is served on `port`.
pub open spec fn nfs_options(port: u32, macos: bool) -> Seq<char> {
    let p = text::decimal(port as nat);
    if macos {
        "nolocks,vers=3,tcp,port="@ + p + ",mountport="@ + p + ",soft,timeo=10,retrans=2"@
    } else {
        "vers=3,tcp,port="@ + p + ",mountport="@ + p + ",nolock,soft,timeo=10,retrans=2"@
    }
}

/// The arguments of the command that mounts.
pub open spec fn mount_arguments(port: u32, mountpoint: Seq<char>, macos: bool) -> Seq<Seq<char>> {
    if macos {
        seq!["-o"@, nfs_options(port, macos), "127.0.0.1:/"@, mountpoint]
    } else {
        seq!["-t"@, "nfs"@, "-o"@, nfs_options(port, macos), "127.0.0.1:/"@, mountpoint]
    }
}

/// The arguments of the command that mounts.
pub fn mount_args(port: u32, mountpoint: &str, macos: bool) -> (r: Vec<String>)
    ensures
        text::views(r@) == mount_arguments(port, mountpoint@, macos),
{
    let p = text::decimal_u64(port as u64);
    let mut out: Vec<String> = Vec::new();
    let mut options = if macos {
        text::concat3("nolocks,vers=3,tcp,port=", p.as_str(), ",mountport=")
    } else {
        text::concat3("vers=3,tcp,port=", p.as_str(), ",mountport=")
    };
    options.append(p.as_str());
    if macos {
        options.append(",soft,timeo=10,retrans=2");
    } else {
        options.append(",nolock,soft,timeo=10,retrans=2");
        out.push("-t".to_owned());
        out.push("nfs".to_owned());
    }
    out.push("-o".to_owned());
    out.push(options);
    out.push("127.0.0.1:/".to_owned());
    out.push(mountpoint.to_owned());
    assert(text::views(out@) =~= mount_arguments(port, mountpoint@, macos));
    out
}

/// What is said where mounting has failed, given what the command has said.
pub open spec fn mount_complaint(said: Seq<char>, macos: bool) -> Seq<char> {
    if macos {
        "Failed to mount NFS: "@ + text::trimmed(said)
    } else {
        "Failed to mount NFS: "@ + text::trimmed(said)
            + ". Make sure nfs-common is installed (apt-get install nfs-common)."@
    }
}

/// Whether mounting has succeeded, given what the command has said.
pub fn mount_nfs(success: bool, said: &str, macos: bool) -> (r: Result<(), String>)
    ensures
        if success {
            r is Ok
        } else {
            r matches Err(m) && m@ == mount_complaint(said@, macos)
        },
{
    if success {
        return Ok(());
    }
    let said = text::trim(said);
    if macos {
        Err(text::concat("Failed to mount NFS: ", said.as_str()))
    } else {
        Err(
            text::concat3(
                "Failed to mount NFS: ",
                said.as_str(),
                ". Make sure nfs-common is installed (apt-get install nfs-common).",
            ),
        )
    }
}

/// How far unmounting has got.
#[derive(Debug)]
pub enum Unmounting<S> {
    /// The command is to be run, by force or not.
    Run { force: bool },
    Done,
    Failed(S),
}

/// What was heard of a command: whether it succeeded, and what it said.
#[derive(Debug)]
pub struct Heard {
    pub success: bool,
    pub said: String,
}

/// The option that unmounts by force.
pub open spec fn force_option(macos: bool) -> Seq<char> {
    if macos {
        "-f"@
    } else {
        "-l"@
    }
}

/// What is said where unmounting has failed.
pub open spec fn unmount_complaint(said: Seq<char>, mountpoint: Seq<char>, macos: bool) -> Seq<
    char,
> {
    "Failed to unmount: "@ + text::trimmed(said)
        + ". You may need to manually unmount with: umount "@ + force_option(macos) + " "@
        + mountpoint
}

/// What unmounting does next: it is tried, then tried by force, and if that fails
/// too, what was said at first is reported.
pub fn unmount(heard: &Vec<Heard>, mountpoint: &str, macos: bool) -> (r: Unmounting<String>)
    ensures
        if heard@.len() == 0 {
            r == (Unmounting::<String>::Run { force: false })
        } else if heard@[0].success {
            r is Done
        } else if heard@.len() == 1 {
            r == (Unmounting::<String>::Run { force: true })
        } else if heard@[1].success {
            r is Done
        } else {
            r matches Unmounting::Failed(m) && m@ == unmount_complaint(
                heard@[0].said@,
                mountpoint@,
                macos,
            )
        },
{
    if heard.len() == 0 {
        return Unmounting::Run { force: false };
    }
    if heard[0].success {
        return Unmounting::Done;
    }
    if heard.len() == 1 {
        return Unmounting::Run { force: true };
    }
    if heard[1].success {
        return Unmounting::Done;
    }
    let said = text::trim(heard[0].said.as_str());
    let mut m = text::concat3(
        "Failed to unmount: ",
        said.as_str(),
        ". You may need to manually unmount with: umount ",
    );
    m.append(
        if macos {
            "-f"
        } else {
            "-l"
        },
    );
    m.append(" ");
    m.append(mountpoint);
    Unmounting::Failed(m)
}

/// The exit code of the command that was run; one that was killed counts as
/// failed.
pub fn exit_code(code: Option<i32>) -> (r: i32)
    ensures
        r == (match code {
            Some(c) => c,
            None => 1i32,
        }),
{
    match code {
        Some(c) => c,
        None => 1,
    }
}

} // verus!
