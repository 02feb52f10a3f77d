//! A pool of database connections: how many may be in use, and when one is
//! used again.

use vstd::prelude::*;

verus! {

/// How many connections may be in use at the same time.
pub const MAX_CONNECTIONS: usize = 1;

/// The connections of a pool: the idle ones, and the number of those in use.
pub struct ConnectionPool<C> {
    pub idle: Vec<C>,
    pub in_use: usize,
}

/// What a request for a connection comes to.
#[derive(Debug)]
pub enum Acquired<C> {
    /// As many connections as may be are in use: wait until one is free.
    Wait,
    /// An idle connection is used again.
    Reuse(C),
    /// There is no idle connection: open one.
    Open,
}

/// A pool: its idle connections, and the number of those in use.
#[verifier::ext_equal]
pub struct PoolView<C> {
    pub idle: Seq<C>,
    pub in_use: nat,
}

impl<C> View for ConnectionPool<C> {
    type V = PoolView<C>;

    open spec fn view(&self) -> PoolView<C> {
        PoolView { idle: self.idle@, in_use: self.in_use as nat }
    }
}

/// No more connections than may be.
pub open spec fn within_limit<C>(pool: PoolView<C>) -> bool {
    pool.idle.len() + pool.in_use <= MAX_CONNECTIONS
}

/// What a request for a connection comes to, and the pool after it. A connection
/// that is to be opened counts as in use.
pub open spec fn acquired<C>(pool: PoolView<C>) -> (Acquired<C>, PoolView<C>) {
    if pool.in_use >= MAX_CONNECTIONS {
        (Acquired::Wait, pool)
    } else if pool.idle.len() > 0 {
        (
            Acquired::Reuse(pool.idle.last()),
            PoolView { idle: pool.idle.drop_last(), in_use: pool.in_use + 1 },
        )
    } else {
        (Acquired::Open, PoolView { in_use: pool.in_use + 1, ..pool })
    }
}

/// The pool once a connection has been taken back.
pub open spec fn released<C>(pool: PoolView<C>, conn: C) -> PoolView<C> {
    PoolView { idle: pool.idle.push(conn), in_use: (pool.in_use - 1) as nat }
}

/// The pool once a connection could not be opened.
pub open spec fn abandoned<C>(pool: PoolView<C>) -> PoolView<C> {
    PoolView { in_use: (pool.in_use - 1) as nat, ..pool }
}

impl<C> ConnectionPool<C> {
    /// No more connections than may be.
    pub open spec fn wf(&self) -> bool {
        within_limit(self@)
    }

    /// A pool without connections.
    pub fn new() -> (r: Self)
        ensures
            r.wf(),
            r@ == (PoolView { idle: Seq::<C>::empty(), in_use: 0 }),
    {
        let r = ConnectionPool { idle: Vec::new(), in_use: 0 };
        assert(r@ =~= PoolView { idle: Seq::<C>::empty(), in_use: 0 });
        r
    }

    /// Asks for a connection. One that is to be opened counts as in use.
    pub fn get_conn(&mut self) -> (r: Acquired<C>)
        requires
            old(self).wf(),
        ensures
            final(self).wf(),
            (r, final(self)@) == acquired(old(self)@),
    {
        let ghost before = self@;
        if self.in_use >= MAX_CONNECTIONS {
            return Acquired::Wait;
        }
        self.in_use = self.in_use + 1;
        let r = match self.idle.pop() {
            Some(c) => Acquired::Reuse(c),
            None => Acquired::Open,
        };
        assert(self@ =~= acquired(before).1);
        r
    }

    /// Takes a connection back, to be used again.
    pub fn release(&mut self, conn: C)
        requires
            old(self).wf(),
            old(self).in_use > 0,
        ensures
            final(self).wf(),
            final(self)@ == released(old(self)@, conn),
    {
        self.in_use = self.in_use - 1;
        self.idle.push(conn);
    }

    /// Takes note that a connection could not be opened.
    pub fn abandon(&mut self)
        requires
            old(self).wf(),
            old(self).in_use > 0,
        ensures
            final(self).wf(),
            final(self)@ == abandoned(old(self)@),
    {
        self.in_use = self.in_use - 1;
    }
}

/// Whatever is asked of a pool, it never has more connections than may be.
pub proof fn law_limit_is_kept<C>(pool: PoolView<C>, conn: C)
    requires
        within_limit(pool),
    ensures
        within_limit(acquired(pool).1),
        pool.in_use > 0 ==> within_limit(released(pool, conn)),
        pool.in_use > 0 ==> within_limit(abandoned(pool)),
{
}

/// Whoever uses one connection after the other uses the same one every time: what
/// was taken back is what is handed out next, and none is opened beside it.
pub proof fn law_sequential_use_keeps_one_connection<C>(pool: PoolView<C>, conn: C)
    requires
        within_limit(pool),
        pool.in_use > 0,
    ensures
        acquired(released(pool, conn)).0 == Acquired::Reuse(conn),
        acquired(released(pool, conn)).1 == pool,
{
    assert(acquired(released(pool, conn)).1 =~= pool);
}

/// Whoever asks while as many connections as may be are in use has to wait, and is
/// served once one is taken back or could not be opened.
pub proof fn law_waiting_ends_with_a_free_place<C>(pool: PoolView<C>, conn: C)
    requires
        within_limit(pool),
        acquired(pool).0 is Wait,
    ensures
        acquired(pool).1 == pool,
        acquired(released(pool, conn)).0 == Acquired::Reuse(conn),
        acquired(abandoned(pool)).0 is Open,
{
}

} // verus!
