//! Which database an agent uses.

use crate::text;
use vstd::prelude::*;
use vstd::string::*;

verus! {

/// Whether a character beyond ASCII is a letter or a number.
pub uninterp spec fn unicode_alphanumeric(c: char) -> bool;

/// `char::is_alphanumeric`: a function of the character, under the name
/// `unicode_alphanumeric`.
#[verifier::external_body]
fn is_unicode_alphanumeric(c: char) -> (r: bool)
    ensures
        r == unicode_alphanumeric(c),
{
    c.is_alphanumeric()
}

/// `std::path::Path::exists`: whether a path leads to something that exists, at
/// this moment. Nothing is known of it.
#[verifier::external_body]
fn path_exists(path: &str) -> (r: bool)
{
    std::path::Path::new(path).exists()
}

/// Which database is opened: the one at `path`, else the one of the agent `id`,
/// else one in memory.
#[derive(Debug, Clone)]
pub struct AgentFSOptions {
    pub id: Option<String>,
    pub path: Option<String>,
}

/// What the options hold.
pub struct OptionsView {
    pub id: Option<Seq<char>>,
    pub path: Option<Seq<char>>,
}

impl View for AgentFSOptions {
    type V = OptionsView;

    open spec fn view(&self) -> OptionsView {
        OptionsView { id: text::opt(self.id), path: text::opt(self.path) }
    }
}

/// Why no database is opened.
#[derive(Debug, Clone)]
pub enum ResolveError {
    InvalidId(String),
    NotFound(String),
}

/// What an error holds.
pub enum ResolveErrorView {
    InvalidId(Seq<char>),
    NotFound(Seq<char>),
}

impl View for ResolveError {
    type V = ResolveErrorView;

    open spec fn view(&self) -> ResolveErrorView {
        match self {
            ResolveError::InvalidId(id) => ResolveErrorView::InvalidId(id@),
            ResolveError::NotFound(id) => ResolveErrorView::NotFound(id@),
        }
    }
}

/// A character of an agent's name: a letter, a number, a hyphen or an
/// underscore.
pub open spec fn id_char(c: char) -> bool {
    if (c as u32) < 128 {
        text::is_ascii_alnum(c) || c == '-' || c == '_'
    } else {
        unicode_alphanumeric(c)
    }
}

/// A name that an agent may have.
pub open spec fn valid_id(id: Seq<char>) -> bool {
    id.len() > 0 && forall|i: int| 0 <= i < id.len() ==> id_char(#[trigger] id[i])
}

/// Where the database of an agent lies.
pub open spec fn database_of(id: Seq<char>) -> Seq<char> {
    ".agentfs/"@ + id + ".db"@
}

pub open spec fn ephemeral_view() -> OptionsView {
    OptionsView { id: None, path: None }
}

pub open spec fn path_view(path: Seq<char>) -> OptionsView {
    OptionsView { id: None, path: Some(path) }
}

/// What a name or path stands for, given whether it exists as a path and
/// whether there is a database under it as a name.
pub open spec fn resolution(s: Seq<char>, exists: bool, database: bool) -> Result<
    OptionsView,
    ResolveErrorView,
> {
    if s == ":memory:"@ {
        Ok(ephemeral_view())
    } else if exists {
        Ok(path_view(s))
    } else if !valid_id(s) {
        Err(ResolveErrorView::InvalidId(s))
    } else if !database {
        Err(ResolveErrorView::NotFound(s))
    } else {
        Ok(path_view(database_of(s)))
    }
}

pub open spec fn resolved(r: Result<AgentFSOptions, ResolveError>) -> Result<
    OptionsView,
    ResolveErrorView,
> {
    match r {
        Ok(o) => Ok(o@),
        Err(e) => Err(e@),
    }
}

/// The message that an error shows.
pub open spec fn resolve_message(e: ResolveErrorView) -> Seq<char> {
    match e {
        ResolveErrorView::InvalidId(id) => "Invalid agent ID '"@ + id
            + "'. Agent IDs must contain only alphanumeric characters, hyphens, and underscores."@,
        ResolveErrorView::NotFound(id) => "Agent '"@ + id + "' not found at '"@ + database_of(id)
            + "'"@,
    }
}

impl ResolveError {
    /// The message that this error shows.
    pub fn to_string(&self) -> (r: String)
        ensures
            r@ == resolve_message(self@),
    {
        match self {
            ResolveError::InvalidId(id) => text::concat3(
                "Invalid agent ID '",
                id.as_str(),
                "'. Agent IDs must contain only alphanumeric characters, hyphens, and underscores.",
            ),
            ResolveError::NotFound(id) => {
                let mut out = text::concat3("Agent '", id.as_str(), "' not found at '");
                out.append(database_path(id.as_str()).as_str());
                out.append("'");
                out
            },
        }
    }
}

/// Where the database of an agent lies.
pub fn database_path(id: &str) -> (r: String)
    ensures
        r@ == database_of(id@),
{
    text::concat3(".agentfs/", id, ".db")
}

/// The database of an agent.
pub struct AgentFS;

impl AgentFS {
    /// Whether an agent may have the name `id`.
    pub fn validate_agent_id(id: &str) -> (r: bool)
        ensures
            r == valid_id(id@),
    {
        let chars = text::chars_of(id);
        if chars.len() == 0 {
            return false;
        }
        let mut i: usize = 0;
        while i < chars.len()
            invariant
                i <= chars@.len(),
                chars@ == id@,
                forall|j: int| 0 <= j < i ==> id_char(#[trigger] chars@[j]),
            decreases chars@.len() - i,
        {
            let c = chars[i];
            let ok = if (c as u32) < 128 {
                ('a' <= c && c <= 'z') || ('A' <= c && c <= 'Z') || ('0' <= c && c <= '9') || c
                    == '-' || c == '_'
            } else {
                is_unicode_alphanumeric(c)
            };
            if !ok {
                assert(!id_char(id@[i as int]));
                return false;
            }
            i = i + 1;
        }
        true
    }
}

impl Default for AgentFSOptions {
    fn default() -> (r: Self)
        ensures
            r@ == ephemeral_view(),
    {
        AgentFSOptions { id: None, path: None }
    }
}

impl AgentFSOptions {
    /// The database of the agent `id`.
    pub fn with_id(id: &str) -> (r: Self)
        ensures
            r@ == (OptionsView { id: Some(id@), path: None }),
    {
        AgentFSOptions { id: Some(id.to_owned()), path: None }
    }

    /// A database in memory.
    pub fn ephemeral() -> (r: Self)
        ensures
            r@ == ephemeral_view(),
    {
        AgentFSOptions { id: None, path: None }
    }

    /// The database at `path`.
    pub fn with_path(path: &str) -> (r: Self)
        ensures
            r@ == path_view(path@),
    {
        AgentFSOptions { id: None, path: Some(path.to_owned()) }
    }

    /// What a name or path stands for, given whether it exists as a path and
    /// whether there is a database under it as a name.
    pub fn resolve_with(id_or_path: &str, exists: bool, database: bool) -> (r: Result<
        Self,
        ResolveError,
    >)
        ensures
            resolved(r) == resolution(id_or_path@, exists, database),
    {
        if text::same(id_or_path, ":memory:") {
            return Ok(Self::ephemeral());
        }
        if exists {
            return Ok(Self::with_path(id_or_path));
        }
        if !AgentFS::validate_agent_id(id_or_path) {
            return Err(ResolveError::InvalidId(id_or_path.to_owned()));
        }
        if !database {
            return Err(ResolveError::NotFound(id_or_path.to_owned()));
        }
        Ok(Self::with_path(database_path(id_or_path).as_str()))
    }

    /// What a name or path stands for: `:memory:` for a database in memory, the
    /// path of something that exists for itself, and the name of an agent for
    /// the database of that agent, which has to exist.
    pub fn resolve(id_or_path: &str) -> (r: Result<Self, ResolveError>)
        ensures
            exists|exists: bool, database: bool|
                resolved(r) == #[trigger] resolution(id_or_path@, exists, database),
            id_or_path@ == ":memory:"@ ==> r is Ok && r->Ok_0@ == ephemeral_view(),
    {
        let exists = path_exists(id_or_path);
        let database = path_exists(database_path(id_or_path).as_str());
        Self::resolve_with(id_or_path, exists, database)
    }

    /// The path of the database that these options name, and whether it belongs
    /// to an agent, so that the directory of the agents has to be there.
    pub fn database(&self) -> (r: Result<(String, bool), ResolveError>)
        ensures
            match self@.path {
                Some(path) => r is Ok && r->Ok_0.0@ == path && !r->Ok_0.1,
                None => match self@.id {
                    Some(id) => if valid_id(id) {
                        r is Ok && r->Ok_0.0@ == database_of(id) && r->Ok_0.1
                    } else {
                        r is Err && r->Err_0@ == ResolveErrorView::InvalidId(id)
                    },
                    None => r is Ok && r->Ok_0.0@ == ":memory:"@ && !r->Ok_0.1,
                },
            },
    {
        if let Some(path) = &self.path {
            return Ok((path.clone(), false));
        }
        match &self.id {
            Some(id) => if AgentFS::validate_agent_id(id.as_str()) {
                Ok((database_path(id.as_str()), true))
            } else {
                Err(ResolveError::InvalidId(id.clone()))
            },
            None => Ok((":memory:".to_owned(), false)),
        }
    }
}

/// The name of an agent leads nowhere but into the directory of the agents: it
/// holds no slash, no backslash and no dot.
pub proof fn law_valid_id_stays_inside(id: Seq<char>)
    requires
        valid_id(id),
    ensures
        !id.contains('/'),
        !id.contains('\\'),
        !id.contains('.'),
        !id.contains('\0'),
{
    assert forall|c: char| c == '/' || c == '\\' || c == '.' || c == '\0' implies !id.contains(
        c,
    ) by {
        if id.contains(c) {
            let i = choose|i: int| 0 <= i < id.len() && id[i] == c;
            assert(id_char(id[i]));
        }
    }
}

/// A name that resolves to the database of an agent is a valid name.
pub proof fn law_resolved_database_is_inside(s: Seq<char>, database: bool)
    requires
        s != ":memory:"@,
        resolution(s, false, database) is Ok,
    ensures
        valid_id(s),
        resolution(s, false, database)->Ok_0 == path_view(database_of(s)),
{
}

/// What a name or path stands for: `:memory:` for a database that is kept nowhere, a path
/// that is there for itself, and any other for the database of the agent of that name,
/// where there is one. A name that no agent can have is refused before it is looked for.
pub proof fn law_what_a_name_stands_for(s: Seq<char>, exists: bool, database: bool)
    ensures
        ({
            let r = resolution(s, exists, database);
            let memory = s == ":memory:"@;
            &&& memory ==> (r matches Ok(o) && o.id is None && o.path is None)
            &&& !memory && exists ==> (r matches Ok(o) && o.id is None && o.path == Some(s))
            &&& !memory && !exists && valid_id(s) && database ==> (r matches Ok(o) && o.id is None
                && o.path == Some(".agentfs/"@ + s + ".db"@))
            &&& !memory && !exists && valid_id(s) && !database ==> r == Err::<
                OptionsView,
                ResolveErrorView,
            >(ResolveErrorView::NotFound(s))
            &&& !memory && !exists && !valid_id(s) ==> r == Err::<OptionsView, ResolveErrorView>(
                ResolveErrorView::InvalidId(s),
            )
        }),
{
}

} // verus!
