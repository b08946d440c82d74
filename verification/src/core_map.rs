//! One executor per worker core, and the master's.

use crate::topology::{CoreId, SocketId};
use vstd::prelude::*;

verus! {

/// The right to ask one worker, once, to end its run loop.
#[derive(Debug)]
pub struct ShutdownTrigger {
    core: CoreId,
}

/// The right to wait, once, for one worker's thread to exit.
#[derive(Debug)]
pub struct JoinHandle {
    core: CoreId,
}

impl ShutdownTrigger {
    /// The trigger of the worker on `core`.
    pub closed spec fn of(core: CoreId) -> ShutdownTrigger {
        ShutdownTrigger { core }
    }

    pub(crate) fn mint(core: CoreId) -> (trigger: ShutdownTrigger)
        ensures
            trigger == ShutdownTrigger::of(core),
    {
        ShutdownTrigger { core }
    }

    /// The core whose worker this trigger ends.
    pub fn core_id(&self) -> (core: CoreId)
        ensures
            *self == ShutdownTrigger::of(core),
            forall|other: CoreId| *self == ShutdownTrigger::of(other) ==> other == core,
    {
        self.core
    }
}

impl JoinHandle {
    /// The handle of the worker on `core`.
    pub closed spec fn of(core: CoreId) -> JoinHandle {
        JoinHandle { core }
    }

    pub(crate) fn mint(core: CoreId) -> (handle: JoinHandle)
        ensures
            handle == JoinHandle::of(core),
    {
        JoinHandle { core }
    }

    /// The core whose worker this handle waits for.
    pub fn core_id(&self) -> (core: CoreId)
        ensures
            *self == JoinHandle::of(core),
            forall|other: CoreId| *self == JoinHandle::of(other) ==> other == core,
    {
        self.core
    }
}

/// The executor of the master core: it runs the reactor that receives
/// signals and the timer of the top-level wait, and no pipeline.
#[derive(Clone, Copy, Debug, PartialEq, Eq, Structural)]
pub struct MasterExecutor {
    pub core: CoreId,
    pub socket: SocketId,
}

/// The executor of one worker core. It starts out parked: it holds what is
/// spawned onto it and runs none of it until it is unparked. Its shutdown
/// trigger and join handle are there until they are taken, together and once.
#[derive(Debug)]
pub struct WorkerExecutor {
    pub core: CoreId,
    pub socket: SocketId,
    pub parked: bool,
    pub shutdown: Option<ShutdownTrigger>,
    pub join: Option<JoinHandle>,
}

impl WorkerExecutor {
    /// Trigger and handle are both still there.
    pub open spec fn armed(self) -> bool {
        &&& self.shutdown == Some(ShutdownTrigger::of(self.core))
        &&& self.join == Some(JoinHandle::of(self.core))
    }

    /// Trigger and handle have both been taken.
    pub open spec fn spent(self) -> bool {
        self.shutdown is None && self.join is None
    }

    /// Trigger and handle go together.
    pub open spec fn wf(self) -> bool {
        self.armed() || self.spent()
    }

    /// The worker as it is when its thread reports ready.
    pub open spec fn fresh(core: CoreId, socket: SocketId) -> WorkerExecutor {
        WorkerExecutor {
            core,
            socket,
            parked: true,
            shutdown: Some(ShutdownTrigger::of(core)),
            join: Some(JoinHandle::of(core)),
        }
    }

    /// The worker once it has been released to run.
    pub open spec fn unparked(self) -> WorkerExecutor {
        WorkerExecutor { parked: false, ..self }
    }

    /// The worker once its trigger and handle have been taken.
    pub open spec fn disarmed(self) -> WorkerExecutor {
        WorkerExecutor { shutdown: None, join: None, ..self }
    }

    pub(crate) fn launch(core: CoreId, socket: SocketId) -> (worker: WorkerExecutor)
        ensures
            worker == WorkerExecutor::fresh(core, socket),
    {
        WorkerExecutor {
            core,
            socket,
            parked: true,
            shutdown: Some(ShutdownTrigger::mint(core)),
            join: Some(JoinHandle::mint(core)),
        }
    }
}

/// The workers of a runtime, one per worker core, and the master.
pub struct CoreMap {
    master: MasterExecutor,
    workers: Vec<WorkerExecutor>,
}

/// A core map as the contracts see it: the master, and the workers in the
/// order in which they were registered.
pub struct CoreMapView {
    pub master: MasterExecutor,
    pub workers: Seq<WorkerExecutor>,
}

/// The cores of `workers`, worker by worker.
pub open spec fn worker_ids(workers: Seq<WorkerExecutor>) -> Seq<CoreId> {
    workers.map_values(|w: WorkerExecutor| w.core)
}

impl CoreMapView {
    /// Whether `core` has a worker.
    pub open spec fn has(self, core: CoreId) -> bool {
        worker_ids(self.workers).contains(core)
    }

    /// The socket of the worker of `core`, for a core that has one.
    pub open spec fn socket(self, core: CoreId) -> SocketId {
        if self.has(core) {
            self.workers[worker_ids(self.workers).index_of(core)].socket
        } else {
            arbitrary()
        }
    }

    /// No core has two workers, the master core has none, and each worker
    /// holds both its trigger and its handle or neither.
    pub open spec fn wf(self) -> bool {
        &&& self.workers.len() <= usize::MAX
        &&& worker_ids(self.workers).no_duplicates()
        &&& !worker_ids(self.workers).contains(self.master.core)
        &&& forall|i: int| 0 <= i < self.workers.len() ==> (#[trigger] self.workers[i]).wf()
    }
}

impl View for CoreMap {
    type V = CoreMapView;

    closed spec fn view(&self) -> CoreMapView {
        CoreMapView { master: self.master, workers: self.workers@ }
    }
}

impl CoreMap {
    /// No core has two workers, and the master core has none.
    pub open spec fn wf(&self) -> bool {
        self@.wf()
    }

    /// A map with the given master and no worker yet.
    pub fn new(master: MasterExecutor) -> (map: CoreMap)
        ensures
            map.wf(),
            map@ == (CoreMapView { master, workers: Seq::empty() }),
    {
        let map = CoreMap { master, workers: Vec::new() };
        proof {
            assert(worker_ids(map@.workers) =~= Seq::<CoreId>::empty());
        }
        map
    }

    /// The master's executor.
    pub fn master(&self) -> (master: MasterExecutor)
        ensures
            master == self@.master,
    {
        self.master
    }

    /// How many workers there are.
    pub fn len(&self) -> (n: usize)
        ensures
            n == self@.workers.len(),
    {
        self.workers.len()
    }

    /// The worker at position `i`.
    pub fn worker(&self, i: usize) -> (worker: &WorkerExecutor)
        requires
            i < self@.workers.len(),
        ensures
            *worker == self@.workers[i as int],
    {
        &self.workers[i]
    }

    /// Where the worker of `core` stands, if the core has one.
    pub fn position(&self, core: CoreId) -> (at: Option<usize>)
        ensures
            match at {
                Some(i) => i < self@.workers.len() && self@.workers[i as int].core == core,
                None => !worker_ids(self@.workers).contains(core),
            },
    {
        let mut i: usize = 0;
        while i < self.workers.len()
            invariant
                i <= self.workers.len(),
                forall|j: int| 0 <= j < i ==> worker_ids(self@.workers)[j] != core,
            decreases self.workers.len() - i,
        {
            if self.workers[i].core == core {
                return Some(i);
            }
            i += 1;
        }
        None
    }

    /// The socket of the worker of `core`, if the core has one.
    pub fn socket_of(&self, core: CoreId) -> (socket: Option<SocketId>)
        requires
            self.wf(),
        ensures
            match socket {
                Some(s) => self@.has(core) && s == self@.socket(core),
                None => !self@.has(core),
            },
    {
        match self.position(core) {
            Some(i) => {
                proof {
                    let ids = worker_ids(self@.workers);
                    assert(ids[i as int] == core);
                    let k = ids.index_of(core);
                    assert(0 <= k < ids.len() && ids[k] == core);
                }
                Some(self.workers[i].socket)
            },
            None => None,
        }
    }

    /// Registers the worker of `core`, parked and armed, after those already
    /// there. The master core and a core that has a worker are not
    /// registered again: the map then stays as it is and `false` is returned.
    pub fn register(&mut self, core: CoreId, socket: SocketId) -> (added: bool)
        requires
            old(self).wf(),
        ensures
            final(self).wf(),
            added == (core != old(self)@.master.core && !worker_ids(old(self)@.workers).contains(
                core,
            )),
            added ==> final(self)@ == (CoreMapView {
                workers: old(self)@.workers.push(WorkerExecutor::fresh(core, socket)),
                ..old(self)@
            }),
            !added ==> final(self)@ == old(self)@,
    {
        if core == self.master.core {
            return false;
        }
        if let Some(i) = self.position(core) {
            proof {
                assert(worker_ids(self@.workers)[i as int] == core);
            }
            return false;
        }
        let ghost before = self.workers@;
        self.workers.push(WorkerExecutor::launch(core, socket));
        proof {
            assert(worker_ids(self.workers@) =~= worker_ids(before).push(core));
            assert(self.workers@.len() == self.workers.len());
        }
        true
    }

    /// Releases the worker at position `i` to run what was spawned onto it.
    pub fn unpark(&mut self, i: usize)
        requires
            old(self).wf(),
            i < old(self)@.workers.len(),
        ensures
            final(self).wf(),
            final(self)@ == (CoreMapView {
                workers: old(self)@.workers.update(i as int, old(self)@.workers[i as int].unparked()),
                ..old(self)@
            }),
    {
        let ghost before = self.workers@;
        self.workers[i].parked = false;
        proof {
            assert(self.workers@ =~= before.update(i as int, before[i as int].unparked()));
            assert(worker_ids(self.workers@) =~= worker_ids(before));
            assert(before[i as int].wf());
            assert forall|j: int| 0 <= j < self.workers@.len() implies (
            #[trigger] self.workers@[j]).wf() by {
                assert(before[j].wf());
            }
        }
    }

    /// Takes the trigger and the handle of the worker at position `i`, which
    /// still has them.
    pub fn disarm(&mut self, i: usize) -> (taken: (ShutdownTrigger, JoinHandle))
        requires
            old(self).wf(),
            i < old(self)@.workers.len(),
            old(self)@.workers[i as int].armed(),
        ensures
            final(self).wf(),
            taken.0 == ShutdownTrigger::of(old(self)@.workers[i as int].core),
            taken.1 == JoinHandle::of(old(self)@.workers[i as int].core),
            final(self)@ == (CoreMapView {
                workers: old(self)@.workers.update(i as int, old(self)@.workers[i as int].disarmed()),
                ..old(self)@
            }),
    {
        let ghost before = self.workers@;
        let trigger = self.workers[i].shutdown.take();
        let handle = self.workers[i].join.take();
        proof {
            assert(self.workers@ =~= before.update(i as int, before[i as int].disarmed()));
            assert(worker_ids(self.workers@) =~= worker_ids(before));
            assert forall|j: int| 0 <= j < self.workers@.len() implies (
            #[trigger] self.workers@[j]).wf() by {
                assert(before[j].wf());
            }
        }
        (trigger.unwrap(), handle.unwrap())
    }

    /// Removes the worker that was registered last.
    pub fn pop(&mut self) -> (worker: Option<WorkerExecutor>)
        requires
            old(self).wf(),
        ensures
            final(self).wf(),
            match worker {
                Some(w) => old(self)@.workers.len() > 0 && w == old(self)@.workers.last()
                    && final(self)@ == (CoreMapView {
                    workers: old(self)@.workers.drop_last(),
                    ..old(self)@
                }),
                None => old(self)@.workers.len() == 0 && final(self)@ == old(self)@,
            },
    {
        let ghost before = self.workers@;
        let worker = self.workers.pop();
        proof {
            if before.len() > 0 {
                assert(self.workers@ =~= before.drop_last());
                assert(worker_ids(self.workers@) =~= worker_ids(before).drop_last());
                assert forall|j: int| 0 <= j < self.workers@.len() implies (
                #[trigger] self.workers@[j]).wf() by {
                    assert(before[j].wf());
                }
                if worker_ids(self.workers@).contains(self.master.core) {
                    let j = choose|j: int|
                        0 <= j < self.workers@.len() && worker_ids(self.workers@)[j]
                            == self.master.core;
                    assert(worker_ids(before)[j] == self.master.core);
                }
            }
        }
        worker
    }
}

} // verus!
