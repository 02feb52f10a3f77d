//! Names of agents, connections, and ignore files.

use agentfs::fsignore::{own_file, FsIgnore, FSIGNORE_FILE};
use agentfs::options::{AgentFS, AgentFSOptions};
use agentfs::pool::{Acquired, ConnectionPool};

#[test]
fn test_resolve_memory() {
    let opts = AgentFSOptions::resolve(":memory:").unwrap();
    assert!(opts.id.is_none());
    assert!(opts.path.is_none());
}

#[test]
fn test_resolve_existing_file_path() {
    let temp_file = tempfile::Builder::new()
        .prefix("test_resolve_existing")
        .suffix(".db")
        .tempfile()
        .unwrap();
    let path = temp_file.path().to_str().unwrap();

    let opts = AgentFSOptions::resolve(path).unwrap();
    assert!(opts.id.is_none());
    assert_eq!(opts.path, Some(path.to_string()));
}

#[test]
fn test_resolve_valid_agent_id_with_existing_db() {
    let opts = AgentFSOptions::resolve_with("test-resolve-agent", false, true).unwrap();
    assert!(opts.id.is_none());
    assert_eq!(opts.path, Some(".agentfs/test-resolve-agent.db".to_string()));
}

#[test]
fn test_resolve_invalid_agent_id() {
    let result = AgentFSOptions::resolve("../evil");
    assert!(result.is_err());
    assert!(result.unwrap_err().to_string().contains("Invalid agent ID"));

    let result = AgentFSOptions::resolve("invalid agent");
    assert!(result.is_err());

    let result = AgentFSOptions::resolve("agent@test");
    assert!(result.is_err());
}

#[test]
fn test_resolve_nonexistent_agent() {
    let result = AgentFSOptions::resolve("nonexistent-agent-12345");
    assert!(result.is_err());
    assert!(result.unwrap_err().to_string().contains("not found"));
}

#[test]
fn test_resolve_valid_agent_id_formats() {
    let valid_ids = ["my-agent", "my_agent", "MyAgent123", "agent-123_test"];

    for id in valid_ids {
        let opts = AgentFSOptions::resolve_with(id, false, true).unwrap();
        assert!(opts.id.is_none());
        assert_eq!(opts.path, Some(format!(".agentfs/{}.db", id)));
    }
}

#[test]
fn resolve_messages() {
    let invalid = AgentFSOptions::resolve_with("a b", false, false).unwrap_err();
    assert_eq!(
        invalid.to_string(),
        "Invalid agent ID 'a b'. Agent IDs must contain only alphanumeric characters, hyphens, and underscores."
    );
    let missing = AgentFSOptions::resolve_with("ghost", false, false).unwrap_err();
    assert_eq!(missing.to_string(), "Agent 'ghost' not found at '.agentfs/ghost.db'");
}

#[test]
fn names_may_hold_letters_of_any_script() {
    assert!(AgentFS::validate_agent_id("größe-1"));
    assert!(AgentFS::validate_agent_id("日本"));
    assert!(!AgentFS::validate_agent_id("a→b"));
    assert!(!AgentFS::validate_agent_id(""));
    assert!(!AgentFS::validate_agent_id("a.b"));
    assert!(!AgentFS::validate_agent_id("a/b"));
}

#[test]
fn test_agentfs_creation() {
    let (path, named) = AgentFSOptions::ephemeral().database().unwrap();
    assert_eq!(path, ":memory:");
    assert!(!named);
}

#[test]
fn test_agentfs_with_id() {
    let (path, named) = AgentFSOptions::with_id("test-agent").database().unwrap();
    assert_eq!(path, ".agentfs/test-agent.db");
    assert!(named);
    assert!(AgentFSOptions::with_id("no/agent").database().is_err());
    assert_eq!(AgentFSOptions::with_path("/x.db").database().unwrap().0, "/x.db");
    assert_eq!(AgentFSOptions::default().database().unwrap().0, ":memory:");
}

#[test]
fn test_connection_pool_basic() {
    let mut pool: ConnectionPool<u32> = ConnectionPool::new();
    assert!(matches!(pool.get_conn(), Acquired::Open));
    assert!(matches!(pool.get_conn(), Acquired::Wait));
    pool.release(7);
    assert!(matches!(pool.get_conn(), Acquired::Reuse(7)));
}

#[test]
fn test_connection_pool_sequential() {
    let mut pool: ConnectionPool<u32> = ConnectionPool::new();
    for i in 0..3 {
        let conn = match pool.get_conn() {
            Acquired::Open => {
                assert_eq!(i, 0);
                1
            }
            Acquired::Reuse(c) => c,
            Acquired::Wait => panic!("the connection was released"),
        };
        pool.release(conn);
    }
    assert_eq!(pool.idle.len(), 1);
}

#[test]
fn connection_that_failed_to_open_frees_its_place() {
    let mut pool: ConnectionPool<u32> = ConnectionPool::new();
    assert!(matches!(pool.get_conn(), Acquired::Open));
    pool.abandon();
    assert!(matches!(pool.get_conn(), Acquired::Open));
}

const ROOT: &str = "/srv/project";

fn load(content: &str) -> FsIgnore {
    FsIgnore::load(ROOT, content.lines().map(|l| l.to_string()).collect())
}

fn at(name: &str) -> String {
    format!("{}/{}", ROOT, name)
}

#[test]
fn test_no_fsignore_file() {
    let ignore = FsIgnore::load(ROOT, Vec::new());
    assert!(ignore.is_empty());
    assert!(!ignore.is_ignored(&at("anything.txt"), false));
    assert!(!ignore.is_ignored("/elsewhere/anything.txt", false));
    assert_eq!(ignore.try_is_ignored("elsewhere", true), Some(false));
}

#[test]
fn patterns_speak_of_their_own_directory() {
    let ignore = load("*.log\n");
    assert_eq!(ignore.try_is_ignored(&at("debug.log"), false), Some(true));
    assert_eq!(ignore.try_is_ignored(&at("readme.md"), false), Some(false));
    assert_eq!(ignore.try_is_ignored("/elsewhere/debug.log", false), None);
    assert_eq!(ignore.try_is_ignored("/srv/project//debug.log", false), None);
    assert_eq!(load("# nothing\n\n").try_is_ignored("/elsewhere/debug.log", false), Some(false));
}

#[test]
fn test_basic_file_pattern() {
    let ignore = load("*.log\n");
    assert!(!ignore.is_empty());
    assert!(ignore.is_ignored(&at("debug.log"), false));
    assert!(!ignore.is_ignored(&at("readme.md"), false));
}

#[test]
fn test_directory_pattern() {
    let ignore = load("target/\nnode_modules/\n");
    assert!(ignore.is_ignored(&at("target"), true));
    assert!(ignore.is_ignored(&at("node_modules"), true));
    assert!(!ignore.is_ignored(&at("target"), false));
}

#[test]
fn test_nested_path() {
    let ignore = load("target/\n");
    assert!(ignore.is_ignored(&at("target/debug/foo"), false));
}

#[test]
fn test_negation() {
    let ignore = load("*.bin\n!important.bin\n");
    assert!(ignore.is_ignored(&at("data.bin"), false));
    assert!(!ignore.is_ignored(&at("important.bin"), false));
}

#[test]
fn test_comments_and_blank_lines() {
    let ignore = load("# This is a comment\n\n*.tmp\n\n# Another comment\n");
    assert!(ignore.is_ignored(&at("scratch.tmp"), false));
    assert!(!ignore.is_ignored(&at("readme.md"), false));
}

#[test]
fn test_fsignore_file_itself_not_ignored() {
    let ignore = load(".*\n");
    assert!(
        !ignore.is_ignored(&at(FSIGNORE_FILE), false),
        ".fsignore at root should never be ignored"
    );
    assert!(ignore.is_ignored(&at(".env"), false));
    assert!(ignore.is_ignored(&at("sub/.fsignore"), false));
}

#[test]
fn test_double_star_pattern() {
    let ignore = load("**/build/\n");
    assert!(ignore.is_ignored(&at("build"), true));
    assert!(ignore.is_ignored(&at("src/build"), true));
}

#[test]
fn test_multiple_patterns() {
    let ignore = load(".git/\nnode_modules/\ntarget/\n*.pyc\n__pycache__/\n");
    assert!(ignore.is_ignored(&at(".git"), true));
    assert!(ignore.is_ignored(&at("node_modules"), true));
    assert!(ignore.is_ignored(&at("target"), true));
    assert!(ignore.is_ignored(&at("main.pyc"), false));
    assert!(ignore.is_ignored(&at("__pycache__"), true));
    assert!(!ignore.is_ignored(&at("src"), true));
    assert!(!ignore.is_ignored(&at("main.rs"), false));
}

#[test]
fn byte_order_mark_is_no_part_of_a_pattern() {
    let ignore = load("\u{feff}*.log\n");
    assert!(ignore.is_ignored(&at("debug.log"), false));
}

#[test]
fn own_file_is_told_by_its_components() {
    assert!(own_file("/a/b", "/a/b/.fsignore"));
    assert!(own_file("/a/b/", "/a/./b/.fsignore"));
    assert!(!own_file("/a/b", "/a/b/c/.fsignore"));
    assert!(!own_file("/a/b", "/a/b"));
}
