//! Computations that ask the outside world questions. A plan says which
//! question comes next and how each reply is taken; a step function is handed
//! the replies so far and gives the next question or the result.

use vstd::prelude::*;

verus! {

/// What a computation does: it is done, or it asks a question and goes on with
/// the reply.
#[verifier::reject_recursive_types(Q)]
#[verifier::reject_recursive_types(R)]
#[verifier::reject_recursive_types(T)]
pub enum Plan<Q, R, T> {
    Done(T),
    Ask(Q, spec_fn(R) -> Plan<Q, R, T>),
}

/// What a computation does next.
pub enum Head<Q, T> {
    Done(T),
    Ask(Q),
}

/// What a computation does next, as a step function returns it.
#[derive(Debug)]
pub enum Step<Q, T> {
    Done(T),
    Ask(Q),
}

/// What is left of a plan once the replies have come, in order. Replies beyond
/// the end are of no account.
pub open spec fn after<Q, R, T>(plan: Plan<Q, R, T>, replies: Seq<R>) -> Plan<Q, R, T>
    decreases replies.len(),
{
    if replies.len() == 0 {
        plan
    } else {
        match plan {
            Plan::Done(_) => plan,
            Plan::Ask(_, next) => after(next(replies[0]), replies.drop_first()),
        }
    }
}

pub open spec fn head<Q, R, T>(plan: Plan<Q, R, T>) -> Head<Q, T> {
    match plan {
        Plan::Done(t) => Head::Done(t),
        Plan::Ask(q, _) => Head::Ask(q),
    }
}

/// What comes next once the replies have come.
pub open spec fn next<Q, R, T>(plan: Plan<Q, R, T>, replies: Seq<R>) -> Head<Q, T> {
    head(after(plan, replies))
}

/// A plan that is done stays done.
pub broadcast proof fn lemma_after_done<Q, R, T>(t: T, replies: Seq<R>)
    ensures
        #[trigger] after(Plan::<Q, R, T>::Done(t), replies) == Plan::<Q, R, T>::Done(t),
{
}

/// A question is gone on with by its reply.
pub broadcast proof fn lemma_after_ask<Q, R, T>(
    q: Q,
    next: spec_fn(R) -> Plan<Q, R, T>,
    replies: Seq<R>,
)
    requires
        replies.len() > 0,
    ensures
        #[trigger] after(Plan::Ask(q, next), replies) == after(
            next(replies[0]),
            replies.drop_first(),
        ),
{
}

/// Without replies a plan is left as it is.
pub broadcast proof fn lemma_after_nothing<Q, R, T>(plan: Plan<Q, R, T>, replies: Seq<R>)
    requires
        replies.len() == 0,
    ensures
        #[trigger] after(plan, replies) == plan,
{
}

pub broadcast group group_after {
    lemma_after_done,
    lemma_after_ask,
    lemma_after_nothing,
}

/// What replies hold.
pub open spec fn views<R: View>(replies: Seq<R>) -> Seq<R::V> {
    Seq::new(replies.len(), |i: int| replies[i]@)
}

/// The replies that a step function has not used yet.
pub struct Replay<'a, R> {
    pub replies: &'a Vec<R>,
    pub pos: usize,
}

impl<'a, R: View> Replay<'a, R> {
    pub open spec fn ok(&self) -> bool {
        self.pos <= self.replies@.len()
    }

    /// What the unused replies hold.
    pub open spec fn rest(&self) -> Seq<R::V> {
        views(self.replies@).skip(self.pos as int)
    }

    /// All the replies, unused.
    pub fn new(replies: &'a Vec<R>) -> (r: Self)
        ensures
            r.ok(),
            r.rest() == views(replies@),
    {
        let r = Replay { replies, pos: 0 };
        assert(r.rest() =~= views(replies@));
        r
    }

    /// The next reply, if there is one.
    pub fn next(&mut self) -> (r: Option<&'a R>)
        requires
            old(self).ok(),
        ensures
            final(self).ok(),
            match r {
                Some(reply) => old(self).rest().len() > 0 && reply@ == old(self).rest()[0]
                    && final(self).rest() == old(self).rest().drop_first(),
                None => old(self).rest().len() == 0 && final(self).rest() == old(self).rest(),
            },
    {
        if self.pos < self.replies.len() {
            let i: usize = self.pos;
            let reply = &self.replies[i];
            let ghost before = self.rest();
            self.pos = i + 1;
            assert(self.rest() =~= before.drop_first());
            Some(reply)
        } else {
            None
        }
    }
}

} // verus!
