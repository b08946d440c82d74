//! The configuration that a runtime is assembled from.

use crate::distinct::{
    absorb, distinct, lemma_absorb_concat, lemma_absorb_contains, lemma_absorb_keeps_front,
    lemma_absorb_len, lemma_distinct, lemma_distinct_single,
};
use crate::topology::{absorb_cores, CoreId};
use vstd::prelude::*;

verus! {

/// How large each buffer pool is to be.
#[derive(Clone, Copy, Debug, PartialEq, Eq, Structural)]
pub struct MempoolSettings {
    pub capacity: usize,
    pub cache_size: usize,
}

/// One port: its logical name, the device behind it, the cores that get a
/// queue on it, and the receive and transmit descriptor counts of each queue.
#[derive(Clone, Debug)]
pub struct PortSettings {
    pub name: String,
    pub device: String,
    pub cores: Vec<CoreId>,
    pub rxd: usize,
    pub txd: usize,
}

/// Everything a runtime is told.
#[derive(Clone, Debug)]
pub struct RuntimeSettings {
    pub master_core: CoreId,
    pub cores: Vec<CoreId>,
    pub ports: Vec<PortSettings>,
    pub mempool: MempoolSettings,
    /// Seconds to run for; `None` and `Some(0)` both mean: until a signal.
    pub duration: Option<u64>,
}

/// The core lists of `ports`, one after the other.
pub open spec fn port_cores(ports: Seq<PortSettings>) -> Seq<CoreId>
    decreases ports.len(),
{
    if ports.len() == 0 {
        Seq::empty()
    } else {
        port_cores(ports.drop_last()) + ports.last().cores@
    }
}

impl RuntimeSettings {
    /// Every mention of a core: the master, then the worker list, then each
    /// port's list.
    pub open spec fn mentioned(&self) -> Seq<CoreId> {
        seq![self.master_core] + self.cores@ + port_cores(self.ports@)
    }

    /// Every core that the configuration refers to, each once. The master
    /// comes first.
    pub open spec fn cores_in_use(&self) -> Seq<CoreId> {
        distinct(self.mentioned())
    }

    /// The cores that get an executor: the master, then each core of the
    /// worker list, once.
    pub open spec fn seated(&self) -> Seq<CoreId> {
        distinct(seq![self.master_core] + self.cores@)
    }

    /// The cores that run pipelines: those of the worker list, each once,
    /// without the master. A core that only a port names is none of them.
    pub open spec fn worker_cores(&self) -> Seq<CoreId> {
        self.seated().skip(1)
    }

    /// The master core, then the worker cores.
    pub fn executor_cores(&self) -> (cores: Vec<CoreId>)
        ensures
            cores@ == self.seated(),
    {
        let mut cores: Vec<CoreId> = Vec::new();
        cores.push(self.master_core);
        proof {
            lemma_distinct_single(self.master_core);
            assert(cores@ =~= seq![self.master_core]);
            lemma_absorb_concat(Seq::<CoreId>::empty(), seq![self.master_core], self.cores@);
        }
        absorb_cores(&mut cores, &self.cores);
        cores
    }

    /// The union of the master core, the worker list and the ports' core
    /// lists, without repetition.
    pub fn all_cores(&self) -> (cores: Vec<CoreId>)
        ensures
            cores@ == self.cores_in_use(),
    {
        let mut cores: Vec<CoreId> = Vec::new();
        cores.push(self.master_core);
        let ghost head = seq![self.master_core];
        proof {
            lemma_distinct_single(self.master_core);
            assert(cores@ =~= head);
        }
        absorb_cores(&mut cores, &self.cores);
        let mut i: usize = 0;
        proof {
            assert(self.ports@.take(0) =~= Seq::<PortSettings>::empty());
            assert(self.cores@ + port_cores(self.ports@.take(0)) =~= self.cores@);
        }
        while i < self.ports.len()
            invariant
                i <= self.ports.len(),
                head == seq![self.master_core],
                cores@ == absorb(head, self.cores@ + port_cores(self.ports@.take(i as int))),
            decreases self.ports.len() - i,
        {
            proof {
                let done = self.ports@.take(i as int);
                let next = self.ports@.take(i + 1);
                assert(next.drop_last() =~= done);
                assert(self.cores@ + port_cores(next) =~= (self.cores@ + port_cores(done))
                    + self.ports@[i as int].cores@);
                lemma_absorb_concat(
                    head,
                    self.cores@ + port_cores(done),
                    self.ports@[i as int].cores@,
                );
            }
            absorb_cores(&mut cores, &self.ports[i].cores);
            i += 1;
        }
        proof {
            assert(self.ports@.take(self.ports.len() as int) =~= self.ports@);
            let tail = self.cores@ + port_cores(self.ports@);
            assert(self.mentioned() =~= head + tail);
            lemma_absorb_concat(Seq::<CoreId>::empty(), head, tail);
        }
        cores
    }

    /// The master core heads the list of cores in use.
    pub proof fn lemma_master_first(&self)
        ensures
            self.cores_in_use().len() >= 1,
            self.cores_in_use()[0] == self.master_core,
    {
        let head = seq![self.master_core];
        let tail = self.cores@ + port_cores(self.ports@);
        lemma_distinct_single(self.master_core);
        assert(self.mentioned() =~= head + tail);
        lemma_absorb_concat(Seq::<CoreId>::empty(), head, tail);
        lemma_absorb_keeps_front(head, tail);
    }

    /// The master core heads the list of cores that get an executor; the
    /// list repeats nothing and holds, besides the master, exactly the
    /// worker list; and all of it is in use.
    pub proof fn lemma_seated(&self)
        ensures
            1 <= self.seated().len() <= usize::MAX + 1,
            self.seated()[0] == self.master_core,
            self.seated().no_duplicates(),
            forall|c: CoreId|
                self.seated().contains(c) <==> c == self.master_core || self.cores@.contains(c),
            forall|c: CoreId| self.seated().contains(c) ==> self.cores_in_use().contains(c),
    {
        let head = seq![self.master_core];
        let both = head + self.cores@;
        lemma_distinct_single(self.master_core);
        lemma_absorb_concat(Seq::<CoreId>::empty(), head, self.cores@);
        lemma_absorb_keeps_front(head, self.cores@);
        lemma_distinct(both);
        lemma_distinct(self.mentioned());
        lemma_absorb_len(Seq::<CoreId>::empty(), both);
        assert(self.cores@.len() == self.cores.len());
        assert(both[0] == self.master_core);
        assert forall|c: CoreId| self.seated().contains(c) <==> c == self.master_core
            || self.cores@.contains(c) by {
            lemma_absorb_contains(Seq::<CoreId>::empty(), both, c);
            if both.contains(c) {
                let i = choose|i: int| 0 <= i < both.len() && both[i] == c;
                if i > 0 {
                    assert(self.cores@[i - 1] == c);
                }
            }
            if self.cores@.contains(c) {
                let i = choose|i: int| 0 <= i < self.cores@.len() && self.cores@[i] == c;
                assert(both[i + 1] == c);
            }
        }
        assert forall|c: CoreId| self.seated().contains(c) implies self.cores_in_use().contains(
            c,
        ) by {
            lemma_absorb_contains(Seq::<CoreId>::empty(), both, c);
            lemma_absorb_contains(Seq::<CoreId>::empty(), self.mentioned(), c);
            let i = choose|i: int| 0 <= i < both.len() && both[i] == c;
            assert(self.mentioned()[i] == c);
        }
    }

    /// A core in use is the master, or of the worker list, or of a port's
    /// list.
    pub proof fn lemma_in_use(&self, core: CoreId)
        requires
            self.cores_in_use().contains(core),
        ensures
            core == self.master_core || self.cores@.contains(core) || exists|i: int, k: int|
                0 <= i < self.ports@.len() && 0 <= k < self.ports@[i].cores@.len()
                    && #[trigger] self.ports@[i].cores@[k] == core,
    {
        let all = self.mentioned();
        lemma_absorb_contains(Seq::<CoreId>::empty(), all, core);
        assert(all.contains(core));
        let at = choose|at: int| 0 <= at < all.len() && all[at] == core;
        if at > 0 && at - 1 >= self.cores@.len() {
            let rest = port_cores(self.ports@);
            assert(rest[at - 1 - self.cores@.len()] == core);
            assert(rest.contains(core));
            lemma_port_cores(self.ports@, core);
        } else if at > 0 {
            assert(self.cores@[at - 1] == core);
        }
    }
}

/// A core among the core lists of `ports` is in the list of one of them.
pub proof fn lemma_port_cores(ports: Seq<PortSettings>, core: CoreId)
    requires
        port_cores(ports).contains(core),
    ensures
        exists|i: int, k: int|
            0 <= i < ports.len() && 0 <= k < ports[i].cores@.len() && #[trigger] ports[i].cores@[k]
                == core,
    decreases ports.len(),
{
    if ports.len() > 0 {
        let before = port_cores(ports.drop_last());
        let all = port_cores(ports);
        let at = choose|at: int| 0 <= at < all.len() && all[at] == core;
        if at < before.len() {
            assert(before[at] == core);
            lemma_port_cores(ports.drop_last(), core);
            let (i, k) = choose|i: int, k: int|
                0 <= i < ports.drop_last().len() && 0 <= k < ports.drop_last()[i].cores@.len()
                    && #[trigger] ports.drop_last()[i].cores@[k] == core;
            assert(ports[i].cores@[k] == core);
        } else {
            assert(ports[ports.len() - 1].cores@[at - before.len()] == core);
        }
    }
}

} // verus!
