//! One packet-buffer pool per socket.

use crate::distinct::{distinct, lemma_absorb_next, lemma_distinct};
use crate::error::RuntimeError;
use crate::topology::SocketId;
use vstd::prelude::*;

verus! {

/// A fixed-capacity pool of packet buffers, bound to one socket.
#[derive(Clone, Copy, Debug, PartialEq, Eq, Structural)]
pub struct Mempool {
    pub socket: SocketId,
    pub capacity: usize,
    pub cache_size: usize,
}

/// The pools of a runtime, at most one on each socket.
pub struct MempoolMap {
    pools: Vec<Mempool>,
}

/// The pools on loan: while it lives, nobody else can reach them. It
/// resolves a socket to its pool for whoever builds on the pools.
pub struct MempoolBorrow<'a> {
    map: &'a MempoolMap,
}

/// The sockets that `pools` sit on, pool by pool.
pub open spec fn pool_sockets(pools: Seq<Mempool>) -> Seq<SocketId> {
    pools.map_values(|p: Mempool| p.socket)
}

impl View for MempoolMap {
    type V = Seq<Mempool>;

    closed spec fn view(&self) -> Seq<Mempool> {
        self.pools@
    }
}

/// Whether one of `pools` sits on `socket`.
fn on_socket(pools: &Vec<Mempool>, socket: SocketId) -> (found: bool)
    ensures
        found == pool_sockets(pools@).contains(socket),
{
    let mut i: usize = 0;
    while i < pools.len()
        invariant
            i <= pools.len(),
            forall|j: int| 0 <= j < i ==> pool_sockets(pools@)[j] != socket,
        decreases pools.len() - i,
    {
        if pools[i].socket == socket {
            proof {
                assert(pool_sockets(pools@)[i as int] == socket);
            }
            return true;
        }
        i += 1;
    }
    false
}

impl<'a> View for MempoolBorrow<'a> {
    type V = Seq<Mempool>;

    closed spec fn view(&self) -> Seq<Mempool> {
        self.map@
    }
}

impl<'a> MempoolBorrow<'a> {
    /// Whether a pool sits on `socket`.
    pub fn has(&self, socket: SocketId) -> (found: bool)
        ensures
            found == pool_sockets(self@).contains(socket),
    {
        self.map.has(socket)
    }

    /// The pool on `socket`.
    pub fn get(&mut self, socket: SocketId) -> (pool: Result<&Mempool, RuntimeError>)
        ensures
            final(self)@ == old(self)@,
            match pool {
                Ok(p) => p.socket == socket && old(self)@.contains(*p),
                Err(e) => e == RuntimeError::SocketNotFound(socket) && !pool_sockets(
                    old(self)@,
                ).contains(socket),
            },
    {
        self.map.get(socket)
    }
}

impl MempoolMap {
    /// No socket has two pools.
    pub open spec fn wf(&self) -> bool {
        pool_sockets(self@).no_duplicates() && self@.len() <= usize::MAX
    }

    /// One pool of the given size for each distinct socket of `sockets`, in
    /// the order in which the sockets first occur.
    pub fn new(capacity: usize, cache_size: usize, sockets: &Vec<SocketId>) -> (map: MempoolMap)
        ensures
            map.wf(),
            pool_sockets(map@) == distinct(sockets@),
            forall|i: int|
                0 <= i < map@.len() ==> (#[trigger] map@[i]).capacity == capacity
                    && map@[i].cache_size == cache_size,
    {
        let mut pools: Vec<Mempool> = Vec::new();
        let mut i: usize = 0;
        proof {
            assert(sockets@.take(0) =~= Seq::<SocketId>::empty());
            assert(pool_sockets(pools@) =~= Seq::<SocketId>::empty());
        }
        while i < sockets.len()
            invariant
                i <= sockets.len(),
                pool_sockets(pools@) == distinct(sockets@.take(i as int)),
                forall|j: int|
                    0 <= j < pools@.len() ==> (#[trigger] pools@[j]).capacity == capacity
                        && pools@[j].cache_size == cache_size,
            decreases sockets.len() - i,
        {
            let socket = sockets[i];
            let known = on_socket(&pools, socket);
            proof {
                lemma_absorb_next(Seq::<SocketId>::empty(), sockets@, i as int);
            }
            if !known {
                let ghost before = pools@;
                pools.push(Mempool { socket, capacity, cache_size });
                proof {
                    assert(pool_sockets(pools@) =~= pool_sockets(before).push(socket));
                }
            }
            i += 1;
        }
        proof {
            assert(sockets@.take(sockets.len() as int) =~= sockets@);
            lemma_distinct(sockets@);
            assert(pools@.len() == pools.len());
        }
        MempoolMap { pools }
    }

    /// Whether a pool sits on `socket`.
    pub fn has(&self, socket: SocketId) -> (found: bool)
        ensures
            found == pool_sockets(self@).contains(socket),
    {
        on_socket(&self.pools, socket)
    }

    /// The pool on `socket`.
    pub fn get(&self, socket: SocketId) -> (pool: Result<&Mempool, RuntimeError>)
        ensures
            match pool {
                Ok(p) => p.socket == socket && self@.contains(*p),
                Err(e) => e == RuntimeError::SocketNotFound(socket) && !pool_sockets(
                    self@,
                ).contains(socket),
            },
    {
        let mut i: usize = 0;
        while i < self.pools.len()
            invariant
                i <= self.pools.len(),
                forall|j: int| 0 <= j < i ==> pool_sockets(self@)[j] != socket,
            decreases self.pools.len() - i,
        {
            if self.pools[i].socket == socket {
                return Ok(&self.pools[i]);
            }
            i += 1;
        }
        Err(RuntimeError::SocketNotFound(socket))
    }

    /// Lends the pools out, all of them and to one borrower at a time.
    pub fn borrow_mut(&mut self) -> (borrow: MempoolBorrow<'_>)
        ensures
            borrow@ == old(self)@,
            final(self)@ == old(self)@,
    {
        MempoolBorrow { map: &*self }
    }

    /// How many pools there are.
    pub fn len(&self) -> (n: usize)
        ensures
            n == self@.len(),
    {
        self.pools.len()
    }

    /// The pool at position `i`.
    pub fn at(&self, i: usize) -> (pool: Mempool)
        requires
            i < self@.len(),
        ensures
            pool == self@[i as int],
    {
        self.pools[i]
    }
}

} // verus!
