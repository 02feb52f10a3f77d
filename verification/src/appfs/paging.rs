//! Paging handles: which ones are known, who may use them, and for how long.

use crate::appfs::events::ERR_PAGER_HANDLE_EXPIRED;
use crate::appfs::payload;
use crate::appfs::payload::ERR_INVALID_ARGUMENT;
use crate::appfs::segments;
use crate::clock;
use crate::json;
use crate::json::{Json, JsonView};
use crate::strmap::StrMap;
use crate::text;
use vstd::prelude::*;

verus! {

pub const ERR_PAGER_HANDLE_NOT_FOUND: &'static str = "PAGER_HANDLE_NOT_FOUND";

pub const ERR_PAGER_HANDLE_CLOSED: &'static str = "PAGER_HANDLE_CLOSED";

pub const ERR_PERMISSION_DENIED: &'static str = "PERMISSION_DENIED";

/// The number of pages that a handle yields.
pub const PAGES_PER_HANDLE: u64 = 3;

/// A handle by which a listing is read page by page.
#[derive(Debug)]
pub struct PagingHandle {
    pub page_no: u64,
    pub closed: bool,
    pub owner_session: String,
    pub expires_at_ts: Option<i64>,
}

/// What a handle holds.
pub struct HandleView {
    pub page_no: u64,
    pub closed: bool,
    pub owner_session: Seq<char>,
    pub expires_at_ts: Option<i64>,
}

impl View for PagingHandle {
    type V = HandleView;

    open spec fn view(&self) -> HandleView {
        HandleView {
            page_no: self.page_no,
            closed: self.closed,
            owner_session: self.owner_session@,
            expires_at_ts: self.expires_at_ts,
        }
    }
}

/// The handles that the runtime knows, and the long names that stand for short
/// ones.
pub struct HandleTable {
    handles: StrMap<PagingHandle>,
    aliases: StrMap<String>,
}

/// What a table holds.
#[verifier::ext_equal]
pub struct TableView {
    pub handles: Map<Seq<char>, HandleView>,
    pub aliases: Map<Seq<char>, Seq<char>>,
}

impl View for HandleTable {
    type V = TableView;

    closed spec fn view(&self) -> TableView {
        TableView {
            handles: self.handles@.map_values(|h: PagingHandle| h@),
            aliases: self.aliases@.map_values(|s: String| s@),
        }
    }
}

/// The name under which the runtime keeps the handle `id`.
pub open spec fn kept_name(id: Seq<char>) -> Seq<char> {
    segments::shortened(id, segments::MAX_SEGMENT_BYTES as int)
}

/// The name that a request for `id` leads to: what it stands for, else its kept
/// name where that is known, else itself.
pub open spec fn handle_key(table: TableView, id: Seq<char>) -> Seq<char> {
    if table.aliases.contains_key(id) {
        table.aliases[id]
    } else if table.handles.contains_key(kept_name(id)) {
        kept_name(id)
    } else {
        id
    }
}

/// The handle that the page of a resource announces.
pub open spec fn announced(page: JsonView, session: Seq<char>) -> HandleView {
    HandleView {
        page_no: 0,
        closed: false,
        owner_session: match payload::nonblank(json::string_member(page, "session_id"@)) {
            Some(owner) => owner,
            None => session,
        },
        expires_at_ts: match json::string_member(page, "expires_at"@) {
            Some(text) => clock::rfc3339(text),
            None => None,
        },
    }
}

/// The table once a resource with this content is known.
pub open spec fn registered(table: TableView, resource: JsonView, session: Seq<char>) -> TableView {
    match json::member(resource, "page"@) {
        Some(page) => match json::string_member(page, "handle_id"@) {
            Some(id) => TableView {
                handles: table.handles.insert(kept_name(id), announced(page, session)),
                aliases: if kept_name(id) != id {
                    table.aliases.insert(id, kept_name(id))
                } else {
                    table.aliases
                },
            },
            None => table,
        },
        None => table,
    }
}

/// The session that a request speaks for.
pub open spec fn effective_session(requester: Option<Seq<char>>, session: Seq<char>) -> Seq<char> {
    match requester {
        Some(r) => r,
        None => session,
    }
}

pub open spec fn expired(handle: HandleView, now: i64) -> bool {
    handle.expires_at_ts is Some && now >= handle.expires_at_ts->0
}

/// Why a paging request is refused, as a code and a message; nothing where it
/// is granted.
pub open spec fn paging_refusal(
    table: TableView,
    session: Seq<char>,
    id: Seq<char>,
    requester: Option<Seq<char>>,
    now: i64,
) -> Option<(Seq<char>, Seq<char>)> {
    let key = handle_key(table, id);
    if !segments::handle_format(id) {
        Some((ERR_INVALID_ARGUMENT@, "invalid handle_id format"@))
    } else if !table.handles.contains_key(key) {
        Some((ERR_PAGER_HANDLE_NOT_FOUND@, "handle not found"@))
    } else if effective_session(requester, session) != table.handles[key].owner_session {
        Some((ERR_PERMISSION_DENIED@, "cross-session handle access denied"@))
    } else if expired(table.handles[key], now) {
        Some((ERR_PAGER_HANDLE_EXPIRED@, "handle expired"@))
    } else if table.handles[key].closed {
        Some((ERR_PAGER_HANDLE_CLOSED@, "handle already closed"@))
    } else {
        None
    }
}

/// The table once a page of the handle `key` has been asked for.
pub open spec fn paged(table: TableView, key: Seq<char>) -> TableView {
    let h = table.handles[key];
    TableView {
        handles: table.handles.insert(
            key,
            HandleView { page_no: (h.page_no + 1) as u64, ..h },
        ),
        ..table
    }
}

/// The table once the handle `key` has been closed.
pub open spec fn closed(table: TableView, key: Seq<char>) -> TableView {
    let h = table.handles[key];
    TableView { handles: table.handles.insert(key, HandleView { closed: true, ..h }), ..table }
}

/// The handle that a request for `id` leads to, if any, has not run out of page
/// numbers.
pub open spec fn page_left(table: TableView, id: Seq<char>) -> bool {
    let key = handle_key(table, id);
    table.handles.contains_key(key) ==> table.handles[key].page_no < u64::MAX
}

/// A refusal, as a code and a message.
pub open spec fn refusal_view(r: Option<(&'static str, &'static str)>) -> Option<
    (Seq<char>, Seq<char>),
> {
    match r {
        Some((code, message)) => Some((code@, message@)),
        None => None,
    }
}

impl HandleTable {
    /// A table without handles.
    pub fn new() -> (r: Self)
        ensures
            r@ == (TableView { handles: Map::empty(), aliases: Map::empty() }),
    {
        let r = HandleTable { handles: StrMap::new(), aliases: StrMap::new() };
        assert(r@ =~= (TableView { handles: Map::empty(), aliases: Map::empty() }));
        r
    }

    /// The name that a request for `requested` leads to.
    pub fn resolve_handle_key(&self, requested: &str) -> (r: String)
        ensures
            r@ == handle_key(self@, requested@),
    {
        if let Some(alias) = self.aliases.get(requested) {
            return alias.clone();
        }
        let normalized = segments::normalize_runtime_handle_id(requested);
        if self.handles.contains(normalized.as_str()) {
            return normalized;
        }
        requested.to_owned()
    }

    /// Takes note of the handle that a resource announces, if it does.
    pub fn register(&mut self, resource: &Json, session: &str)
        ensures
            final(self)@ == registered(old(self)@, resource@, session@),
    {
        let page = match resource.get("page") {
            Some(p) => p,
            None => {
                return;
            },
        };
        let id = match page.text_member("handle_id") {
            Some(h) => h,
            None => {
                return;
            },
        };
        let ghost start = self@;
        let kept = segments::normalize_runtime_handle_id(id.as_str());
        let owner = match page.text_member("session_id") {
            Some(s) => {
                let body = text::trim(s.as_str());
                if body.as_str().is_empty() {
                    session.to_owned()
                } else {
                    body
                }
            },
            None => session.to_owned(),
        };
        let expires = match page.text_member("expires_at") {
            Some(t) => clock::parse_rfc3339_timestamp(t.as_str()),
            None => None,
        };
        let handle = PagingHandle {
            page_no: 0,
            closed: false,
            owner_session: owner,
            expires_at_ts: expires,
        };
        if !text::same(kept.as_str(), id.as_str()) {
            let ghost before = self.aliases@;
            self.aliases.insert(id.clone(), kept.clone());
            assert(self.aliases@.map_values(|s: String| s@) =~= before.map_values(
                |s: String| s@,
            ).insert(id@, kept@));
        }
        let ghost before = self.handles@;
        self.handles.insert(kept, handle);
        assert(self.handles@.map_values(|h: PagingHandle| h@) =~= before.map_values(
            |h: PagingHandle| h@,
        ).insert(kept@, handle@));
    }

    /// Why a request for the handle `id` is refused, if it is.
    pub fn check_request(
        &self,
        session: &str,
        id: &str,
        requester: Option<&str>,
        now: i64,
    ) -> (r: Option<(&'static str, &'static str)>)
        ensures
            refusal_view(r) == paging_refusal(
                self@,
                session@,
                id@,
                text::opt_str(requester),
                now,
            ),
    {
        if !segments::is_handle_format_valid(id) {
            return Some((ERR_INVALID_ARGUMENT, "invalid handle_id format"));
        }
        let key = self.resolve_handle_key(id);
        match self.handles.get(key.as_str()) {
            Some(h) => {
                assert(self@.handles.contains_pair(key@, h@));
                let who = match requester {
                    Some(w) => w,
                    None => session,
                };
                if !text::same(who, h.owner_session.as_str()) {
                    return Some((ERR_PERMISSION_DENIED, "cross-session handle access denied"));
                }
                if let Some(expiry) = h.expires_at_ts {
                    if now >= expiry {
                        return Some((ERR_PAGER_HANDLE_EXPIRED, "handle expired"));
                    }
                }
                if h.closed {
                    return Some((ERR_PAGER_HANDLE_CLOSED, "handle already closed"));
                }
                None
            },
            None => Some((ERR_PAGER_HANDLE_NOT_FOUND, "handle not found")),
        }
    }

    /// Whether the handle that a request for `id` leads to, if any, has not run out
    /// of page numbers.
    pub fn has_page_left(&self, id: &str) -> (r: bool)
        ensures
            r == page_left(self@, id@),
    {
        let key = self.resolve_handle_key(id);
        match self.handles.get(key.as_str()) {
            Some(h) => {
                assert(self@.handles.contains_pair(key@, h@));
                h.page_no < u64::MAX
            },
            None => true,
        }
    }

    /// Counts a page of the handle `key`, and returns its number.
    pub fn next_page(&mut self, key: &str) -> (r: u64)
        requires
            old(self)@.handles.contains_key(key@),
            old(self)@.handles[key@].page_no < u64::MAX,
        ensures
            final(self)@ == paged(old(self)@, key@),
            r == old(self)@.handles[key@].page_no + 1,
    {
        let ghost start = self@;
        let ghost before = self.handles@;
        match self.handles.take(key) {
            Some(h) => {
                let page_no: u64 = h.page_no + 1;
                let next = PagingHandle {
                    page_no,
                    closed: h.closed,
                    owner_session: h.owner_session,
                    expires_at_ts: h.expires_at_ts,
                };
                self.handles.insert(key.to_owned(), next);
                assert(self.handles@.map_values(|h: PagingHandle| h@) =~= before.map_values(
                    |h: PagingHandle| h@,
                ).insert(key@, next@));
                assert(self@ =~= paged(start, key@));
                page_no
            },
            None => {
                assert(false);
                0
            },
        }
    }

    /// Closes the handle `key`.
    pub fn close(&mut self, key: &str)
        requires
            old(self)@.handles.contains_key(key@),
        ensures
            final(self)@ == closed(old(self)@, key@),
    {
        let ghost start = self@;
        let ghost before = self.handles@;
        match self.handles.take(key) {
            Some(h) => {
                let next = PagingHandle {
                    page_no: h.page_no,
                    closed: true,
                    owner_session: h.owner_session,
                    expires_at_ts: h.expires_at_ts,
                };
                self.handles.insert(key.to_owned(), next);
                assert(self.handles@.map_values(|h: PagingHandle| h@) =~= before.map_values(
                    |h: PagingHandle| h@,
                ).insert(key@, next@));
                assert(self@ =~= closed(start, key@));
            },
            None => {
                assert(false);
            },
        }
    }
}

/// A closed handle stays closed: any later request for it is refused.
pub proof fn law_closed_handle_is_refused(
    table: TableView,
    session: Seq<char>,
    id: Seq<char>,
    requester: Option<Seq<char>>,
    now: i64,
    later: i64,
)
    requires
        paging_refusal(table, session, id, requester, now) is None,
    ensures
        ({
            let after = closed(table, handle_key(table, id));
            paging_refusal(after, session, id, requester, later) == Some(
                if expired(table.handles[handle_key(table, id)], later) {
                    (ERR_PAGER_HANDLE_EXPIRED@, "handle expired"@)
                } else {
                    (ERR_PAGER_HANDLE_CLOSED@, "handle already closed"@)
                },
            )
        }),
{
    let key = handle_key(table, id);
    let after = closed(table, key);
    assert(handle_key(after, id) == key);
}

/// A handle serves no session but its owner's.
pub proof fn law_handle_serves_its_owner(
    table: TableView,
    session: Seq<char>,
    id: Seq<char>,
    requester: Option<Seq<char>>,
    now: i64,
)
    requires
        paging_refusal(table, session, id, requester, now) is None,
    ensures
        table.handles.contains_key(handle_key(table, id)),
        table.handles[handle_key(table, id)].owner_session == effective_session(
            requester,
            session,
        ),
        !expired(table.handles[handle_key(table, id)], now),
        !table.handles[handle_key(table, id)].closed,
{
}

/// A handle that a resource announces can be asked for under the name that the
/// resource gives it, by the session that owns it.
pub proof fn law_announced_handle_is_found(
    table: TableView,
    resource: JsonView,
    session: Seq<char>,
)
    requires
        json::member(resource, "page"@) is Some,
        json::string_member(json::member(resource, "page"@)->0, "handle_id"@) is Some,
        !table.aliases.contains_key(
            json::string_member(json::member(resource, "page"@)->0, "handle_id"@)->0,
        ),
    ensures
        ({
            let page = json::member(resource, "page"@)->0;
            let id = json::string_member(page, "handle_id"@)->0;
            let after = registered(table, resource, session);
            after.handles.contains_key(handle_key(after, id)) && after.handles[handle_key(
                after,
                id,
            )] == announced(page, session)
        }),
{
}

} // verus!
