//! What setting an agent up comes to, over a model of the disk: which database there is
//! afterwards, and what it holds.

use crate::cmd::init;
use crate::cmd::init::{
    InitCall, InitCallView, InitEnd, InitError, InitHead, InitPlan, InitReply, InitReplyView,
    OverlayStep,
};
use crate::options;
use crate::plan;
use crate::plan::Plan;
use vstd::prelude::*;

verus! {

/// What a database holds: the tables of an overlay, the kind and the path of its base, and
/// whatever had been put into it.
pub struct Database {
    pub whiteouts: bool,
    pub config: bool,
    pub typed: bool,
    pub base: Option<Seq<char>>,
    pub rows: Seq<u8>,
}

/// The disk: what stands at each path and whether it is a directory, the databases, the
/// paths without links, and the database that was opened last.
#[verifier::ext_equal]
pub struct Disk {
    pub dirs: Map<Seq<char>, bool>,
    pub databases: Map<Seq<char>, Database>,
    pub resolved: Map<Seq<char>, Seq<char>>,
    pub at: Option<Seq<char>>,
}

/// A database that has just been made.
pub open spec fn empty() -> Database {
    Database { whiteouts: false, config: false, typed: false, base: None, rows: Seq::empty() }
}

pub open spec fn there(d: Disk, path: Seq<char>) -> bool {
    d.dirs.contains_key(path) || d.databases.contains_key(path)
}

/// How a call is answered.
pub open spec fn answer(d: Disk, q: InitCallView) -> InitReplyView {
    match q {
        InitCall::Exists { path } => InitReply::Flag(there(d, path)),
        InitCall::IsDir { path } => InitReply::Flag(d.dirs.contains_key(path) && d.dirs[path]),
        InitCall::Remove { .. } => InitReply::Done,
        InitCall::Open { .. } => InitReply::Done,
        InitCall::Execute { .. } => if d.at is Some {
            InitReply::Done
        } else {
            InitReply::Failed
        },
        InitCall::Resolve { path } => if d.resolved.contains_key(path) {
            InitReply::Path(d.resolved[path])
        } else {
            InitReply::Failed
        },
    }
}

/// A database once a step has been carried out in it.
pub open spec fn stepped(db: Database, step: OverlayStep<Seq<char>>) -> Database {
    match step {
        OverlayStep::CreateWhiteouts => Database { whiteouts: true, ..db },
        OverlayStep::CreateConfig => Database { config: true, ..db },
        OverlayStep::StoreBaseType => Database { typed: db.config, ..db },
        OverlayStep::StoreBasePath(p) => Database {
            base: if db.config {
                Some(p)
            } else {
                db.base
            },
            ..db
        },
    }
}

/// The disk once a call is made.
pub open spec fn effect(d: Disk, q: InitCallView) -> Disk {
    match q {
        InitCall::Remove { path } => Disk {
            dirs: d.dirs.remove(path),
            databases: d.databases.remove(path),
            ..d
        },
        InitCall::Open { id } => {
            let path = options::database_of(id);
            Disk {
                databases: if d.databases.contains_key(path) {
                    d.databases
                } else {
                    d.databases.insert(path, empty())
                },
                at: Some(path),
                ..d
            }
        },
        InitCall::Execute { step } => match d.at {
            Some(path) => Disk {
                databases: d.databases.insert(path, stepped(d.databases[path], step)),
                ..d
            },
            None => d,
        },
        _ => d,
    }
}

/// What setting up comes to: how it ends, and the disk as it leaves it.
pub open spec fn run(p: InitPlan, d: Disk) -> (InitEnd, Disk)
    decreases p,
{
    match p {
        Plan::Done(t) => (t, d),
        Plan::Ask(q, next) => run(next(answer(d, q)), effect(d, q)),
    }
}

broadcast proof fn lemma_run_done(t: InitEnd, d: Disk)
    ensures
        #[trigger] run(Plan::Done(t), d) == (t, d),
{
}

broadcast proof fn lemma_run_ask(
    q: InitCallView,
    next: spec_fn(InitReplyView) -> InitPlan,
    d: Disk,
)
    ensures
        #[trigger] run(Plan::Ask(q, next), d) == run(next(answer(d, q)), effect(d, q)),
{
}

broadcast group group_run {
    lemma_run_done,
    lemma_run_ask,
}

/// An agent with a valid name, whose base, if it has one, is a directory, and which is not
/// there yet or may be overwritten, has afterwards a database that holds nothing of what
/// was there before; with a base, it is set up as an overlay over the real path of the
/// base. No other database changes. Whoever asked is told where the database is and what
/// the agent is called, and with a base, where that is.
pub proof fn law_agent_is_set_up(id: Seq<char>, force: bool, base: Option<Seq<char>>, d: Disk)
    requires
        options::valid_id(id),
        base matches Some(b) ==> d.dirs.contains_key(b) && d.dirs[b] && d.resolved.contains_key(b),
        !there(d, options::database_of(id)) || force,
    ensures
        ({
            let (r, after) = run(init::init_plan(id, force, base), d);
            let path = options::database_of(id);
            let db = after.databases[path];
            &&& after.databases.contains_key(path)
            &&& db.rows.len() == 0
            &&& after.databases.remove(path) =~= d.databases.remove(path)
            &&& match base {
                Some(b) => db.whiteouts && db.config && db.typed && db.base == Some(d.resolved[b]),
                None => !db.whiteouts && !db.config && !db.typed && db.base is None,
            }
            &&& r matches Ok(lines) && lines.contains("Agent ID: "@ + id) && match base {
                Some(b) => lines.contains("Created overlay filesystem: "@ + path)
                    && lines.contains("Base: "@ + d.resolved[b]),
                None => lines.contains("Created agent filesystem: "@ + path),
            }
        }),
{
    broadcast use group_run;

    let (r, after) = run(init::init_plan(id, force, base), d);
    let shown = match base {
        Some(b) => Some(d.resolved[b]),
        None => None,
    };
    assert(r == InitEnd::Ok(init::summary(id, shown)));
    lemma_summary(id, shown);
}

proof fn lemma_summary(id: Seq<char>, base: Option<Seq<char>>)
    ensures
        init::summary(id, base).contains("Agent ID: "@ + id),
        match base {
            Some(b) => init::summary(id, base).contains(
                "Created overlay filesystem: "@ + options::database_of(id),
            ) && init::summary(id, base).contains("Base: "@ + b),
            None => init::summary(id, base).contains(
                "Created agent filesystem: "@ + options::database_of(id),
            ),
        },
{
    let lines = init::summary(id, base);
    assert(lines[1] == "Agent ID: "@ + id);
    match base {
        Some(b) => {
            assert(lines[0] == "Created overlay filesystem: "@ + options::database_of(id));
            assert(lines[2] == "Base: "@ + b);
        },
        None => {
            assert(lines[0] == "Created agent filesystem: "@ + options::database_of(id));
        },
    }
}

/// Where the name is not valid, the base is not there or is no directory, or the agent is
/// there and may not be overwritten, nothing on the disk changes, and the answer says which
/// of these it was, the first one first.
pub proof fn law_refused_agent_leaves_the_disk(
    id: Seq<char>,
    force: bool,
    base: Option<Seq<char>>,
    d: Disk,
)
    ensures
        ({
            let (r, after) = run(init::init_plan(id, force, base), d);
            let missing = base matches Some(b) && !there(d, b);
            let no_dir = base matches Some(b) && !(d.dirs.contains_key(b) && d.dirs[b]);
            let taken = there(d, options::database_of(id)) && !force;
            &&& !options::valid_id(id) ==> r == InitEnd::Err(InitError::InvalidId(id)) && after == d
            &&& options::valid_id(id) && missing ==> r == InitEnd::Err(
                InitError::BaseMissing(base->0),
            ) && after == d
            &&& options::valid_id(id) && !missing && no_dir ==> r == InitEnd::Err(
                InitError::BaseNotDirectory(base->0),
            ) && after == d
            &&& options::valid_id(id) && !missing && !no_dir && taken ==> r == InitEnd::Err(
                InitError::Exists(id),
            ) && after == d
        }),
{
    broadcast use group_run;

}

/// A step in setting an overlay up that fails is where it ends, and is what is told.
pub proof fn law_failed_step_is_told(id: Seq<char>, base: Seq<char>, real_path: Seq<char>)
    ensures
        ({
            let p = init::open_plan(id, Some(base));
            let ok = InitReplyView::Done;
            let no = InitReplyView::Failed;
            let found = InitReplyView::Path(real_path);
            &&& plan::next(p, seq![no]) == InitHead::Done(Err(InitError::Database))
            &&& plan::next(p, seq![ok, no]) == failed_at(OverlayStep::CreateWhiteouts)
            &&& plan::next(p, seq![ok, ok, no]) == failed_at(OverlayStep::CreateConfig)
            &&& plan::next(p, seq![ok, ok, ok, no]) == InitHead::Done(
                Err(InitError::BaseUnresolved),
            )
            &&& plan::next(p, seq![ok, ok, ok, found, no]) == failed_at(OverlayStep::StoreBaseType)
            &&& plan::next(p, seq![ok, ok, ok, found, ok, no]) == failed_at(
                OverlayStep::StoreBasePath(real_path),
            )
        }),
{
    let ok = InitReplyView::Done;
    let no = InitReplyView::Failed;
    let found = InitReplyView::Path(real_path);
    reveal_with_fuel(plan::after, 8);
    assert(seq![no].drop_first() =~= seq![]);
    assert(seq![ok, no].drop_first() =~= seq![no]);
    assert(seq![ok, ok, no].drop_first() =~= seq![ok, no]);
    assert(seq![ok, ok, ok, no].drop_first() =~= seq![ok, ok, no]);
    assert(seq![found, no].drop_first() =~= seq![no]);
    assert(seq![ok, found, no].drop_first() =~= seq![found, no]);
    assert(seq![ok, ok, found, no].drop_first() =~= seq![ok, found, no]);
    assert(seq![ok, ok, ok, found, no].drop_first() =~= seq![ok, ok, found, no]);
    assert(seq![found, ok, no].drop_first() =~= seq![ok, no]);
    assert(seq![ok, found, ok, no].drop_first() =~= seq![found, ok, no]);
    assert(seq![ok, ok, found, ok, no].drop_first() =~= seq![ok, found, ok, no]);
    assert(seq![ok, ok, ok, found, ok, no].drop_first() =~= seq![ok, ok, found, ok, no]);
}

pub open spec fn failed_at(step: OverlayStep<Seq<char>>) -> InitHead {
    InitHead::Done(Err(InitError::Step(step)))
}

} // verus!
