//! Setting a new agent up.

use crate::options;
use crate::options::AgentFS;
use crate::plan;
use crate::plan::{Head, Plan, Replay, Step};
use crate::text;
use vstd::prelude::*;
use vstd::string::*;

verus! {

broadcast use crate::plan::group_after;

/// Why an agent is not set up.
#[derive(Debug)]
pub enum InitError<S> {
    InvalidId(S),
    BaseMissing(S),
    BaseNotDirectory(S),
    Exists(S),
    Database,
    BaseUnresolved,
    Step(OverlayStep<S>),
}

impl View for InitError<String> {
    type V = InitError<Seq<char>>;

    open spec fn view(&self) -> InitError<Seq<char>> {
        match self {
            InitError::InvalidId(s) => InitError::InvalidId(s@),
            InitError::BaseMissing(s) => InitError::BaseMissing(s@),
            InitError::BaseNotDirectory(s) => InitError::BaseNotDirectory(s@),
            InitError::Exists(s) => InitError::Exists(s@),
            InitError::Database => InitError::Database,
            InitError::BaseUnresolved => InitError::BaseUnresolved,
            InitError::Step(s) => InitError::Step(s@),
        }
    }
}

/// The message that an error shows.
pub open spec fn init_message(e: InitError<Seq<char>>) -> Seq<char> {
    match e {
        InitError::InvalidId(id) => options::resolve_message(
            options::ResolveErrorView::InvalidId(id),
        ),
        InitError::BaseMissing(path) => "Base directory does not exist: "@ + path,
        InitError::BaseNotDirectory(path) => "Base path is not a directory: "@ + path,
        InitError::Exists(id) => "Agent '"@ + id + "' already exists at '"@ + options::database_of(
            id,
        ) + "'. Use --force to overwrite."@,
        InitError::Database => "Failed to initialize database"@,
        InitError::BaseUnresolved => "Failed to canonicalize base path"@,
        InitError::Step(s) => step_message(s),
    }
}

impl InitError<String> {
    /// The message that this error shows.
    pub fn to_string(&self) -> (r: String)
        ensures
            r@ == init_message(self@),
    {
        match self {
            InitError::InvalidId(id) => options::ResolveError::InvalidId(id.clone()).to_string(),
            InitError::BaseMissing(path) => text::concat(
                "Base directory does not exist: ",
                path.as_str(),
            ),
            InitError::BaseNotDirectory(path) => text::concat(
                "Base path is not a directory: ",
                path.as_str(),
            ),
            InitError::Exists(id) => {
                let mut out = text::concat3("Agent '", id.as_str(), "' already exists at '");
                out.append(options::database_path(id.as_str()).as_str());
                out.append("'. Use --force to overwrite.");
                out
            },
            InitError::Database => "Failed to initialize database".to_owned(),
            InitError::BaseUnresolved => "Failed to canonicalize base path".to_owned(),
            InitError::Step(s) => s.failure().to_owned(),
        }
    }
}

/// The name of an agent: the one that was asked for, or one made of the seconds
/// since the start of 1970.
pub open spec fn name_for(id: Option<Seq<char>>, now: u64) -> Seq<char> {
    match id {
        Some(id) => id,
        None => "agent-"@ + text::decimal(now as nat),
    }
}

/// The name of an agent.
pub fn agent_id(id: Option<String>, now: u64) -> (r: String)
    ensures
        r@ == name_for(text::opt(id), now),
{
    match id {
        Some(id) => id,
        None => text::concat("agent-", text::decimal_u64(now).as_str()),
    }
}

/// A step in setting an overlay up.
#[derive(Debug)]
pub enum OverlayStep<S> {
    CreateWhiteouts,
    CreateConfig,
    StoreBaseType,
    StoreBasePath(S),
}

impl View for OverlayStep<String> {
    type V = OverlayStep<Seq<char>>;

    open spec fn view(&self) -> OverlayStep<Seq<char>> {
        match self {
            OverlayStep::CreateWhiteouts => OverlayStep::CreateWhiteouts,
            OverlayStep::CreateConfig => OverlayStep::CreateConfig,
            OverlayStep::StoreBaseType => OverlayStep::StoreBaseType,
            OverlayStep::StoreBasePath(p) => OverlayStep::StoreBasePath(p@),
        }
    }
}

/// What is said of a step that has failed.
pub open spec fn step_message(s: OverlayStep<Seq<char>>) -> Seq<char> {
    match s {
        OverlayStep::CreateWhiteouts => "Failed to create whiteout table"@,
        OverlayStep::CreateConfig => "Failed to create overlay config table"@,
        OverlayStep::StoreBaseType => "Failed to store base type"@,
        OverlayStep::StoreBasePath(_) => "Failed to store base path"@,
    }
}

impl OverlayStep<String> {
    /// What is said of this step where it has failed.
    pub fn failure(&self) -> (r: &'static str)
        ensures
            r@ == step_message(self@),
    {
        match self {
            OverlayStep::CreateWhiteouts => "Failed to create whiteout table",
            OverlayStep::CreateConfig => "Failed to create overlay config table",
            OverlayStep::StoreBaseType => "Failed to store base type",
            OverlayStep::StoreBasePath(_) => "Failed to store base path",
        }
    }
}

/// The lines that say what has been set up.
pub open spec fn summary(id: Seq<char>, base: Option<Seq<char>>) -> Seq<Seq<char>> {
    match base {
        Some(base) => seq![
            "Created overlay filesystem: "@ + options::database_of(id),
            "Agent ID: "@ + id,
            "Base: "@ + base,
        ],
        None => seq![
            "Created agent filesystem: "@ + options::database_of(id),
            "Agent ID: "@ + id,
        ],
    }
}

/// The lines that say what has been set up.
pub fn summary_lines(id: &str, base: &Option<String>) -> (r: Vec<String>)
    ensures
        text::views(r@) == summary(id@, text::opt(*base)),
{
    let db = options::database_path(id);
    let mut out: Vec<String> = Vec::new();
    match base {
        Some(base) => {
            out.push(text::concat("Created overlay filesystem: ", db.as_str()));
            out.push(text::concat("Agent ID: ", id));
            out.push(text::concat("Base: ", base.as_str()));
        },
        None => {
            out.push(text::concat("Created agent filesystem: ", db.as_str()));
            out.push(text::concat("Agent ID: ", id));
        },
    }
    assert(text::views(out@) =~= summary(id@, text::opt(*base)));
    out
}

/// What is asked for while an agent is set up.
#[derive(Debug)]
pub enum InitCall<S> {
    /// Whether there is something at a path.
    Exists { path: S },
    /// Whether there is a directory at a path.
    IsDir { path: S },
    /// Remove a database, with the files that belong to it.
    Remove { path: S },
    /// Open the database of an agent, which makes it.
    Open { id: S },
    Execute { step: OverlayStep<S> },
    /// The path without links in it.
    Resolve { path: S },
}

pub type InitCallView = InitCall<Seq<char>>;

pub type InitRequest = InitCall<String>;

impl View for InitCall<String> {
    type V = InitCallView;

    open spec fn view(&self) -> InitCallView {
        match self {
            InitCall::Exists { path } => InitCall::Exists { path: path@ },
            InitCall::IsDir { path } => InitCall::IsDir { path: path@ },
            InitCall::Remove { path } => InitCall::Remove { path: path@ },
            InitCall::Open { id } => InitCall::Open { id: id@ },
            InitCall::Execute { step } => InitCall::Execute { step: step@ },
            InitCall::Resolve { path } => InitCall::Resolve { path: path@ },
        }
    }
}

/// What comes back.
#[derive(Debug)]
pub enum InitReply<S> {
    Failed,
    Done,
    Flag(bool),
    Path(S),
}

pub type InitReplyView = InitReply<Seq<char>>;

pub type InitResponse = InitReply<String>;

impl View for InitReply<String> {
    type V = InitReplyView;

    open spec fn view(&self) -> InitReplyView {
        match self {
            InitReply::Failed => InitReply::Failed,
            InitReply::Done => InitReply::Done,
            InitReply::Flag(b) => InitReply::Flag(*b),
            InitReply::Path(p) => InitReply::Path(p@),
        }
    }
}

/// The lines that say what has been set up, or why nothing has.
pub type InitEnd = Result<Seq<Seq<char>>, InitError<Seq<char>>>;

pub type InitPlan = Plan<InitCallView, InitReplyView, InitEnd>;

pub type InitHead = Head<InitCallView, InitEnd>;

pub type InitStep = Step<InitRequest, Result<Vec<String>, InitError<String>>>;

pub open spec fn step_view(s: InitStep) -> InitHead {
    match s {
        Step::Ask(q) => Head::Ask(q@),
        Step::Done(Ok(lines)) => Head::Done(Ok(text::views(lines@))),
        Step::Done(Err(e)) => Head::Done(Err(e@)),
    }
}

pub open spec fn fail(e: InitError<Seq<char>>) -> InitPlan {
    Plan::Done(Err(e))
}

/// Asks a question, and ends with an error where the answer is not yes.
pub open spec fn unless(q: InitCallView, e: InitError<Seq<char>>, go: InitPlan) -> InitPlan {
    Plan::Ask(
        q,
        |r: InitReplyView|
            if r == InitReplyView::Flag(true) {
                go
            } else {
                fail(e)
            },
    )
}

/// Has something done, and ends with an error where that fails.
pub open spec fn or_fail(q: InitCallView, e: InitError<Seq<char>>, go: InitPlan) -> InitPlan {
    Plan::Ask(
        q,
        |r: InitReplyView|
            if r == InitReplyView::Failed {
                fail(e)
            } else {
                go
            },
    )
}

/// A step in setting an overlay up.
pub open spec fn overlay_step(step: OverlayStep<Seq<char>>, go: InitPlan) -> InitPlan {
    or_fail(InitCall::Execute { step }, InitError::Step(step), go)
}

/// Sets the overlay over `base` up: the tables, the kind of base, and its path
/// without links.
pub open spec fn overlay_plan(id: Seq<char>, base: Seq<char>) -> InitPlan {
    overlay_step(
        OverlayStep::CreateWhiteouts,
        overlay_step(
            OverlayStep::CreateConfig,
            Plan::Ask(
                InitCall::Resolve { path: base },
                |r: InitReplyView|
                    match r {
                        InitReply::Path(p) => overlay_step(
                            OverlayStep::StoreBaseType,
                            overlay_step(
                                OverlayStep::StoreBasePath(p),
                                Plan::Done(Ok(summary(id, Some(p)))),
                            ),
                        ),
                        _ => fail(InitError::BaseUnresolved),
                    },
            ),
        ),
    )
}

/// Makes the database, and the overlay where there is a base.
pub open spec fn open_plan(id: Seq<char>, base: Option<Seq<char>>) -> InitPlan {
    or_fail(
        InitCall::Open { id },
        InitError::Database,
        match base {
            Some(base) => overlay_plan(id, base),
            None => Plan::Done(Ok(summary(id, None))),
        },
    )
}

/// Makes the database. One that is there already is overwritten where that is asked
/// for: it is removed first.
pub open spec fn make_plan(id: Seq<char>, force: bool, base: Option<Seq<char>>) -> InitPlan {
    Plan::Ask(
        InitCall::Exists { path: options::database_of(id) },
        |r: InitReplyView|
            if r != InitReplyView::Flag(true) {
                open_plan(id, base)
            } else if !force {
                fail(InitError::Exists(id))
            } else {
                or_fail(
                    InitCall::Remove { path: options::database_of(id) },
                    InitError::Database,
                    open_plan(id, base),
                )
            },
    )
}

/// Sets an agent up: its name and the base are looked at before anything is made.
pub open spec fn init_plan(id: Seq<char>, force: bool, base: Option<Seq<char>>) -> InitPlan {
    if !options::valid_id(id) {
        fail(InitError::InvalidId(id))
    } else {
        match base {
            Some(path) => unless(
                InitCall::Exists { path },
                InitError::BaseMissing(path),
                unless(
                    InitCall::IsDir { path },
                    InitError::BaseNotDirectory(path),
                    make_plan(id, force, base),
                ),
            ),
            None => make_plan(id, force, base),
        }
    }
}

fn is_yes(r: &InitResponse) -> (yes: bool)
    ensures
        yes == (r@ == InitReplyView::Flag(true)),
{
    match r {
        InitReply::Flag(b) => *b,
        _ => false,
    }
}

fn has_failed(r: &InitResponse) -> (failed: bool)
    ensures
        failed == (r@ == InitReplyView::Failed),
{
    match r {
        InitReply::Failed => true,
        _ => false,
    }
}

/// Asks whether something is so; `Some` ends the step function.
fn ask_unless<'a>(q: InitRequest, e: InitError<String>, rp: &mut Replay<'a, InitResponse>) -> (r:
    Option<InitStep>)
    requires
        old(rp).ok(),
    ensures
        final(rp).ok(),
        forall|go: InitPlan|
            match r {
                Some(s) => plan::next(#[trigger] unless(q@, e@, go), old(rp).rest()) == step_view(s),
                None => plan::after(unless(q@, e@, go), old(rp).rest()) == plan::after(
                    go,
                    final(rp).rest(),
                ),
            },
{
    match rp.next() {
        None => Some(Step::Ask(q)),
        Some(x) => if is_yes(x) {
            None
        } else {
            Some(Step::Done(Err(e)))
        },
    }
}

/// Has something done; `Some` ends the step function.
fn ask_or_fail<'a>(q: InitRequest, e: InitError<String>, rp: &mut Replay<'a, InitResponse>) -> (r:
    Option<InitStep>)
    requires
        old(rp).ok(),
    ensures
        final(rp).ok(),
        forall|go: InitPlan|
            match r {
                Some(s) => plan::next(#[trigger] or_fail(q@, e@, go), old(rp).rest()) == step_view(
                    s,
                ),
                None => plan::after(or_fail(q@, e@, go), old(rp).rest()) == plan::after(
                    go,
                    final(rp).rest(),
                ),
            },
{
    match rp.next() {
        None => Some(Step::Ask(q)),
        Some(x) => if has_failed(x) {
            Some(Step::Done(Err(e)))
        } else {
            None
        },
    }
}

fn overlay_steps<'a>(id: &str, base: &str, rp: &mut Replay<'a, InitResponse>) -> (r: InitStep)
    requires
        old(rp).ok(),
    ensures
        step_view(r) == plan::next(overlay_plan(id@, base@), old(rp).rest()),
{
    if let Some(s) = ask_or_fail(
        InitCall::Execute { step: OverlayStep::CreateWhiteouts },
        InitError::Step(OverlayStep::CreateWhiteouts),
        rp,
    ) {
        return s;
    }
    if let Some(s) = ask_or_fail(
        InitCall::Execute { step: OverlayStep::CreateConfig },
        InitError::Step(OverlayStep::CreateConfig),
        rp,
    ) {
        return s;
    }
    let path = match rp.next() {
        None => {
            return Step::Ask(InitCall::Resolve { path: base.to_owned() });
        },
        Some(x) => match x {
            InitReply::Path(p) => p.clone(),
            _ => {
                return Step::Done(Err(InitError::BaseUnresolved));
            },
        },
    };
    if let Some(s) = ask_or_fail(
        InitCall::Execute { step: OverlayStep::StoreBaseType },
        InitError::Step(OverlayStep::StoreBaseType),
        rp,
    ) {
        return s;
    }
    if let Some(s) = ask_or_fail(
        InitCall::Execute { step: OverlayStep::StoreBasePath(path.clone()) },
        InitError::Step(OverlayStep::StoreBasePath(path.clone())),
        rp,
    ) {
        return s;
    }
    Step::Done(Ok(summary_lines(id, &Some(path))))
}

fn open_steps<'a>(id: &str, base: &Option<String>, rp: &mut Replay<'a, InitResponse>) -> (r:
    InitStep)
    requires
        old(rp).ok(),
    ensures
        step_view(r) == plan::next(open_plan(id@, text::opt(*base)), old(rp).rest()),
{
    if let Some(s) = ask_or_fail(InitCall::Open { id: id.to_owned() }, InitError::Database, rp) {
        return s;
    }
    match base {
        Some(path) => overlay_steps(id, path.as_str(), rp),
        None => Step::Done(Ok(summary_lines(id, &None))),
    }
}

fn make_steps<'a>(
    id: &str,
    force: bool,
    base: &Option<String>,
    rp: &mut Replay<'a, InitResponse>,
) -> (r: InitStep)
    requires
        old(rp).ok(),
    ensures
        step_view(r) == plan::next(make_plan(id@, force, text::opt(*base)), old(rp).rest()),
{
    let there = match rp.next() {
        None => {
            return Step::Ask(InitCall::Exists { path: options::database_path(id) });
        },
        Some(x) => is_yes(x),
    };
    if there {
        if !force {
            return Step::Done(Err(InitError::Exists(id.to_owned())));
        }
        if let Some(s) = ask_or_fail(
            InitCall::Remove { path: options::database_path(id) },
            InitError::Database,
            rp,
        ) {
            return s;
        }
    }
    open_steps(id, base, rp)
}

/// Sets an agent up.
pub fn init_database(id: &str, force: bool, base: &Option<String>, replies: &Vec<InitResponse>) -> (r:
    InitStep)
    ensures
        step_view(r) == plan::next(
            init_plan(id@, force, text::opt(*base)),
            plan::views(replies@),
        ),
{
    if !AgentFS::validate_agent_id(id) {
        return Step::Done(Err(InitError::InvalidId(id.to_owned())));
    }
    let mut rp = Replay::new(replies);
    if let Some(path) = base {
        if let Some(s) = ask_unless(
            InitCall::Exists { path: path.clone() },
            InitError::BaseMissing(path.clone()),
            &mut rp,
        ) {
            return s;
        }
        if let Some(s) = ask_unless(
            InitCall::IsDir { path: path.clone() },
            InitError::BaseNotDirectory(path.clone()),
            &mut rp,
        ) {
            return s;
        }
    }
    make_steps(id, force, base, &mut rp)
}

/// Setting an agent up comes to making its database, once the base, where there is
/// one, has been found to be a directory.
pub proof fn law_base_is_looked_at_first(id: Seq<char>, force: bool, base: Seq<char>)
    requires
        options::valid_id(id),
    ensures
        init_plan(id, force, None) == make_plan(id, force, None),
        plan::after(
            init_plan(id, force, Some(base)),
            seq![InitReplyView::Flag(true), InitReplyView::Flag(true)],
        ) == make_plan(id, force, Some(base)),
        plan::next(init_plan(id, force, Some(base)), seq![InitReplyView::Flag(false)])
            == InitHead::Done(Err(InitError::BaseMissing(base))),
        plan::next(
            init_plan(id, force, Some(base)),
            seq![InitReplyView::Flag(true), InitReplyView::Flag(false)],
        ) == InitHead::Done(Err(InitError::BaseNotDirectory(base))),
{
    let none = Seq::<InitReplyView>::empty();
    let yes = seq![InitReplyView::Flag(true)];
    let no = seq![InitReplyView::Flag(false)];
    assert(seq![InitReplyView::Flag(true), InitReplyView::Flag(true)].drop_first() =~= yes);
    assert(seq![InitReplyView::Flag(true), InitReplyView::Flag(false)].drop_first() =~= no);
    assert(yes.drop_first() =~= none);
    assert(no.drop_first() =~= none);
}

/// A database that is there is never overwritten unasked, and until it has been
/// looked for nothing is made.
pub proof fn law_agents_are_not_overwritten(id: Seq<char>, base: Option<Seq<char>>)
    ensures
        plan::next(make_plan(id, false, base), Seq::<InitReplyView>::empty()) == InitHead::Ask(
            InitCall::Exists { path: options::database_of(id) },
        ),
        plan::next(make_plan(id, false, base), seq![InitReplyView::Flag(true)]) == InitHead::Done(
            Err(InitError::Exists(id)),
        ),
{
    let replies = seq![InitReplyView::Flag(true)];
    assert(replies.drop_first() =~= Seq::<InitReplyView>::empty());
}

/// Where that is asked for, a database that is there is removed before a new one is
/// made, so that nothing of it is left; where it cannot be removed, nothing is made.
pub proof fn law_forced_start_is_fresh(id: Seq<char>, base: Option<Seq<char>>)
    ensures
        plan::next(make_plan(id, true, base), seq![InitReplyView::Flag(true)]) == InitHead::Ask(
            InitCall::Remove { path: options::database_of(id) },
        ),
        plan::next(
            make_plan(id, true, base),
            seq![InitReplyView::Flag(true), InitReplyView::Failed],
        ) == InitHead::Done(Err(InitError::Database)),
        plan::next(
            make_plan(id, true, base),
            seq![InitReplyView::Flag(true), InitReplyView::Done],
        ) == InitHead::Ask(InitCall::Open { id }),
{
    let none = Seq::<InitReplyView>::empty();
    let gone = seq![InitReplyView::Done];
    let stuck = seq![InitReplyView::Failed];
    assert(seq![InitReplyView::Flag(true)].drop_first() =~= none);
    assert(seq![InitReplyView::Flag(true), InitReplyView::Done].drop_first() =~= gone);
    assert(seq![InitReplyView::Flag(true), InitReplyView::Failed].drop_first() =~= stuck);
    assert(gone.drop_first() =~= none);
    assert(stuck.drop_first() =~= none);
}

/// A name that is made up is a name that an agent may have.
pub proof fn law_made_up_names_are_valid(now: u64)
    ensures
        options::valid_id(name_for(None, now)),
{
    reveal_strlit("agent-");
    lemma_decimal_is_valid(now as nat);
    let d = text::decimal(now as nat);
    let id = "agent-"@ + d;
    assert forall|i: int| 0 <= i < id.len() implies options::id_char(#[trigger] id[i]) by {
        if i < 6 {
            assert(id[i] == "agent-"@[i]);
        } else {
            assert(id[i] == d[i - 6]);
        }
    }
}

proof fn lemma_decimal_is_valid(n: nat)
    ensures
        forall|i: int|
            0 <= i < text::decimal(n).len() ==> options::id_char(#[trigger] text::decimal(n)[i]),
    decreases n,
{
    let d = text::digit((n % 10) as int);
    assert('0' <= d <= '9');
    assert(options::id_char(d));
    let all = text::decimal(n);
    if n >= 10 {
        lemma_decimal_is_valid(n / 10);
        let front = text::decimal(n / 10);
        assert forall|i: int| 0 <= i < all.len() implies options::id_char(#[trigger] all[i]) by {
            if i < front.len() {
                assert(all[i] == front[i]);
            }
        }
    } else {
        assert(all =~= seq![d]);
    }
}

} // verus!
