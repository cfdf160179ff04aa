//! The bookkeeping of a fixed-size pool of connections: which connections
//! are idle, how many are lent out, and what a checkout and a checkin do.

use vstd::prelude::*;
use std::collections::VecDeque;

verus! {

/// A pool as its contents: the idle connections, oldest first, the number of
/// connections lent out, and the number that the pool was made with.
pub struct PoolView<T> {
    pub idle: Seq<T>,
    pub lent: nat,
    pub size: nat,
}

impl<T> PoolView<T> {
    /// The pool's invariant: each connection is idle or lent out.
    pub open spec fn wf(self) -> bool {
        self.idle.len() + self.lent == self.size
    }

    /// A checkout: the pool afterwards, and the connection handed out. Where
    /// no connection is idle, none is handed out and the pool is unchanged:
    /// the caller has to wait for a checkin.
    pub open spec fn acquire(self) -> (PoolView<T>, Option<T>) {
        if self.idle.len() == 0 {
            (self, None)
        } else {
            (
                PoolView { idle: self.idle.drop_first(), lent: self.lent + 1, size: self.size },
                Some(self.idle[0]),
            )
        }
    }

    /// Whether the pool takes a connection back: it does where one is lent out.
    pub open spec fn accepts(self) -> bool {
        self.lent > 0
    }

    /// A checkin: the pool afterwards. The connection joins the idle ones as
    /// the last; where none is lent out, the pool is unchanged.
    pub open spec fn release(self, connection: T) -> PoolView<T> {
        if self.accepts() {
            PoolView {
                idle: self.idle.push(connection),
                lent: (self.lent - 1) as nat,
                size: self.size,
            }
        } else {
            self
        }
    }
}

/// One call on a pool.
pub enum PoolCall<T> {
    Acquire,
    Release(T),
}

/// The pool after a sequence of calls.
pub open spec fn after_calls<T>(pool: PoolView<T>, calls: Seq<PoolCall<T>>) -> PoolView<T>
    decreases calls.len(),
{
    if calls.len() == 0 {
        pool
    } else {
        let before = after_calls(pool, calls.drop_last());
        match calls.last() {
            PoolCall::Acquire => before.acquire().0,
            PoolCall::Release(connection) => before.release(connection),
        }
    }
}

/// After any sequence of checkouts and checkins, the idle connections and
/// those lent out are together as many as the pool was made with.
pub proof fn lemma_pool_invariant<T>(pool: PoolView<T>, calls: Seq<PoolCall<T>>)
    requires
        pool.wf(),
    ensures
        after_calls(pool, calls).wf(),
        after_calls(pool, calls).size == pool.size,
        after_calls(pool, calls).idle.len() + after_calls(pool, calls).lent == pool.size,
    decreases calls.len(),
{
    if calls.len() > 0 {
        lemma_pool_invariant(pool, calls.drop_last());
    }
}

/// In a pool of one connection, a second checkout gets nothing until the
/// connection is checked in, and then gets that very connection.
pub proof fn lemma_single_connection<T>(pool: PoolView<T>)
    requires
        pool.wf(),
        pool.size == 1,
        pool.lent == 0,
    ensures
        pool.acquire().1 == Some(pool.idle[0]),
        pool.acquire().0.acquire().1 is None,
        pool.acquire().0.acquire().0 == pool.acquire().0,
        pool.acquire().0.release(pool.idle[0]).acquire().1 == Some(pool.idle[0]),
{
    let lent_out = pool.acquire().0;
    assert(lent_out.idle.len() == 0);
    let back = lent_out.release(pool.idle[0]);
    assert(back.idle[0] == pool.idle[0]);
}

/// A connection that is checked in while none is idle is the one that the
/// next checkout hands out.
pub proof fn lemma_release_then_acquire<T>(pool: PoolView<T>, connection: T)
    requires
        pool.wf(),
        pool.idle.len() == 0,
        pool.accepts(),
    ensures
        pool.release(connection).acquire().1 == Some(connection),
        pool.release(connection).acquire().0 == pool,
{
    let back = pool.release(connection);
    assert(back.idle[0] == connection);
    assert(back.idle.drop_first() =~= pool.idle);
}

/// The connections of a pool that are idle, and the count of those lent out.
#[derive(Debug)]
pub struct IdleSet<T> {
    idle: VecDeque<T>,
    lent: usize,
    size: usize,
}

impl<T> IdleSet<T> {
    /// The pool's contents.
    pub closed spec fn view(&self) -> PoolView<T> {
        PoolView { idle: self.idle@, lent: self.lent as nat, size: self.size as nat }
    }

    /// The pool's invariant.
    pub open spec fn wf(&self) -> bool {
        self@.wf()
    }

    /// A pool of the connections given, all idle, in their order.
    pub fn new(connections: Vec<T>) -> (pool: Self)
        ensures
            pool.wf(),
            pool@.idle == connections@,
            pool@.lent == 0,
            pool@.size == connections@.len(),
    {
        let size: usize = connections.len();
        let mut rest = connections;
        let mut idle: VecDeque<T> = VecDeque::new();
        while rest.len() > 0
            invariant
                idle@ + rest@ == connections@,
            decreases rest@.len(),
        {
            let ghost before = rest@;
            let connection = rest.remove(0);
            idle.push_back(connection);
            assert(idle@ + rest@ =~= connections@) by {
                assert(rest@ =~= before.subrange(1, before.len() as int));
            }
        }
        assert(idle@ =~= connections@);
        IdleSet { idle, lent: 0, size }
    }

    /// The number of idle connections.
    pub fn idle_count(&self) -> (n: usize)
        ensures
            n == self@.idle.len(),
    {
        self.idle.len()
    }

    /// The number of connections lent out.
    pub fn checked_out_count(&self) -> (n: usize)
        ensures
            n == self@.lent,
    {
        self.lent
    }

    /// The number of connections that the pool was made with.
    pub fn construction_size(&self) -> (n: usize)
        ensures
            n == self@.size,
    {
        self.size
    }

    /// Checks a connection out: the oldest idle one, or none where no
    /// connection is idle. The caller then waits for a checkin and asks again.
    pub fn get_connection(&mut self) -> (connection: Option<T>)
        requires
            old(self).wf(),
        ensures
            final(self).wf(),
            final(self)@ == old(self)@.acquire().0,
            connection == old(self)@.acquire().1,
    {
        match self.idle.pop_front() {
            Some(connection) => {
                self.lent = self.lent + 1;
                assert(self.idle@ =~= old(self).idle@.drop_first());
                Some(connection)
            },
            None => None,
        }
    }

    /// Checks a connection in: it becomes the last of the idle ones, and one
    /// waiting caller is to be woken. Where no connection is lent out the pool
    /// takes none: it hands the connection back and stays as it is.
    pub fn release_connection(&mut self, connection: T) -> (refused: Result<(), T>)
        requires
            old(self).wf(),
        ensures
            final(self).wf(),
            final(self)@ == old(self)@.release(connection),
            old(self)@.accepts() ==> refused == Ok::<(), T>(()),
            !old(self)@.accepts() ==> refused == Err::<(), T>(connection),
    {
        if self.lent == 0 {
            return Err(connection);
        }
        self.idle.push_back(connection);
        self.lent = self.lent - 1;
        Ok(())
    }
}

} // verus!
