//! Cores, sockets, and how the environment lays the first out over the second.

use crate::distinct::{absorb, lemma_absorb_next};
use vstd::prelude::*;

verus! {

/// A logical CPU.
#[derive(Clone, Copy, Debug, PartialEq, Eq, Structural, Hash)]
pub struct CoreId {
    pub raw: usize,
}

/// A NUMA node.
#[derive(Clone, Copy, Debug, PartialEq, Eq, Structural, Hash)]
pub struct SocketId {
    pub raw: u32,
}

/// One core that the environment offers, and the socket it sits on.
#[derive(Clone, Copy, Debug, PartialEq, Eq, Structural)]
pub struct CoreInfo {
    pub core: CoreId,
    pub socket: SocketId,
}

impl CoreId {
    /// The core with the given number.
    pub fn new(raw: usize) -> (core: CoreId)
        ensures
            core.raw == raw,
    {
        CoreId { raw }
    }

    /// The core's number.
    pub fn raw(&self) -> (raw: usize)
        ensures
            raw == self.raw,
    {
        self.raw
    }

    /// The socket that `topology` gives for this core: that of the first
    /// entry for it, or `None` where the environment does not offer the core.
    pub fn socket_id(&self, topology: &Vec<CoreInfo>) -> (socket: Option<SocketId>)
        ensures
            socket == socket_of(topology@, *self),
    {
        let mut i: usize = 0;
        proof {
            assert(topology@.skip(0) =~= topology@);
        }
        while i < topology.len()
            invariant
                i <= topology.len(),
                socket_of(topology@, *self) == socket_of(topology@.skip(i as int), *self),
            decreases topology.len() - i,
        {
            proof {
                assert(topology@.skip(i as int).drop_first() =~= topology@.skip(i + 1));
            }
            if topology[i].core == *self {
                return Some(topology[i].socket);
            }
            i += 1;
        }
        None
    }
}

/// Whether `cores` holds `core`.
pub fn has_core(cores: &Vec<CoreId>, core: CoreId) -> (found: bool)
    ensures
        found == cores@.contains(core),
{
    let mut i: usize = 0;
    while i < cores.len()
        invariant
            i <= cores.len(),
            forall|j: int| 0 <= j < i ==> cores@[j] != core,
        decreases cores.len() - i,
    {
        if cores[i] == core {
            return true;
        }
        i += 1;
    }
    false
}

/// Whether `sockets` holds `socket`.
pub fn has_socket(sockets: &Vec<SocketId>, socket: SocketId) -> (found: bool)
    ensures
        found == sockets@.contains(socket),
{
    let mut i: usize = 0;
    while i < sockets.len()
        invariant
            i <= sockets.len(),
            forall|j: int| 0 <= j < i ==> sockets@[j] != socket,
        decreases sockets.len() - i,
    {
        if sockets[i] == socket {
            return true;
        }
        i += 1;
    }
    false
}

/// Appends to `acc` each core of `cores` that it does not hold yet.
pub fn absorb_cores(acc: &mut Vec<CoreId>, cores: &Vec<CoreId>)
    ensures
        final(acc)@ == absorb(old(acc)@, cores@),
{
    let mut i: usize = 0;
    proof {
        assert(cores@.take(0) =~= Seq::<CoreId>::empty());
    }
    while i < cores.len()
        invariant
            i <= cores.len(),
            acc@ == absorb(old(acc)@, cores@.take(i as int)),
        decreases cores.len() - i,
    {
        proof {
            lemma_absorb_next(old(acc)@, cores@, i as int);
        }
        if !has_core(acc, cores[i]) {
            acc.push(cores[i]);
        }
        i += 1;
    }
    proof {
        assert(cores@.take(cores.len() as int) =~= cores@);
    }
}

/// The socket of `core` according to the first entry that `topology` has for
/// it.
pub open spec fn socket_of(topology: Seq<CoreInfo>, core: CoreId) -> Option<SocketId>
    decreases topology.len(),
{
    if topology.len() == 0 {
        None
    } else if topology[0].core == core {
        Some(topology[0].socket)
    } else {
        socket_of(topology.drop_first(), core)
    }
}

/// Whether the environment offers `core`.
pub open spec fn offered(topology: Seq<CoreInfo>, core: CoreId) -> bool {
    socket_of(topology, core) is Some
}

} // verus!
