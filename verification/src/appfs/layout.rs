//! Where the parts of an application lie, and which of them have to be there.

use crate::cmd::ps;
use crate::text;
use vstd::prelude::*;
use vstd::string::*;

verus! {

/// Where the parts of an application lie.
#[derive(Debug)]
pub struct Layout {
    pub app_dir: String,
    pub manifest: String,
    pub events: String,
    pub cursor: String,
    pub replay_dir: String,
    pub jobs: String,
}

/// Which of the parts are there.
#[derive(Debug, Clone, Copy)]
pub struct Presence {
    pub app_dir: bool,
    pub manifest: bool,
    pub events: bool,
    pub cursor: bool,
    pub replay_dir: bool,
}

/// The path that `name` leads to from `path`: one that starts at the root leads
/// there.
pub open spec fn joined(path: Seq<char>, name: Seq<char>) -> Seq<char> {
    if name.len() > 0 && name[0] == '/' {
        name
    } else {
        ps::below(path, name)
    }
}

fn join(path: &str, name: &str) -> (r: String)
    ensures
        r@ == joined(path@, name@),
{
    let chars = text::chars_of(name);
    if chars.len() > 0 && chars[0] == '/' {
        name.to_owned()
    } else {
        ps::join_below(path, name)
    }
}

/// A file in a directory of the application.
pub open spec fn part(app_dir: Seq<char>, dir: Seq<char>, name: Seq<char>) -> Seq<char> {
    ps::below(ps::below(app_dir, dir), name)
}

/// What is said of the first part that is missing, if one is.
pub open spec fn complaint(l: Layout, p: Presence) -> Option<Seq<char>> {
    if !p.app_dir {
        Some("App directory not found: "@ + l.app_dir@)
    } else if !p.manifest {
        Some("Missing manifest file: "@ + l.manifest@)
    } else if !p.events {
        Some("Missing events stream file: "@ + l.events@)
    } else if !p.cursor {
        Some("Missing cursor file: "@ + l.cursor@)
    } else if !p.replay_dir {
        Some("Missing replay directory: "@ + l.replay_dir@)
    } else {
        None
    }
}

impl Layout {
    /// Where the parts of the application `app_id` below `root` lie.
    pub fn new(root: &str, app_id: &str) -> (r: Self)
        ensures
            r.app_dir@ == joined(root@, app_id@),
            r.manifest@ == part(r.app_dir@, "_meta"@, "manifest.res.json"@),
            r.events@ == part(r.app_dir@, "_stream"@, "events.evt.jsonl"@),
            r.cursor@ == part(r.app_dir@, "_stream"@, "cursor.res.json"@),
            r.replay_dir@ == part(r.app_dir@, "_stream"@, "from-seq"@),
            r.jobs@ == part(r.app_dir@, "_stream"@, "inflight.jobs.res.json"@),
    {
        let app_dir = join(root, app_id);
        let meta = ps::join_below(app_dir.as_str(), "_meta");
        let stream = ps::join_below(app_dir.as_str(), "_stream");
        Layout {
            manifest: ps::join_below(meta.as_str(), "manifest.res.json"),
            events: ps::join_below(stream.as_str(), "events.evt.jsonl"),
            cursor: ps::join_below(stream.as_str(), "cursor.res.json"),
            replay_dir: ps::join_below(stream.as_str(), "from-seq"),
            jobs: ps::join_below(stream.as_str(), "inflight.jobs.res.json"),
            app_dir,
        }
    }

    /// What is said of the first part that is missing, if one is.
    pub fn missing(&self, present: Presence) -> (r: Option<String>)
        ensures
            text::opt(r) == complaint(*self, present),
    {
        if !present.app_dir {
            Some(text::concat("App directory not found: ", self.app_dir.as_str()))
        } else if !present.manifest {
            Some(text::concat("Missing manifest file: ", self.manifest.as_str()))
        } else if !present.events {
            Some(text::concat("Missing events stream file: ", self.events.as_str()))
        } else if !present.cursor {
            Some(text::concat("Missing cursor file: ", self.cursor.as_str()))
        } else if !present.replay_dir {
            Some(text::concat("Missing replay directory: ", self.replay_dir.as_str()))
        } else {
            None
        }
    }
}

} // verus!
