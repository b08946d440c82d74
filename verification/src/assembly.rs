//! The assembly of a runtime, step by step: pools, then executors, then
//! ports, and the way back where a step fails.

use crate::core_map::{
    worker_ids, CoreMapView, JoinHandle, MasterExecutor, ShutdownTrigger, WorkerExecutor,
};
use crate::distinct::{distinct, lemma_distinct};
use crate::error::{PortError, RuntimeError};
use crate::machine::{port_matches, site, sites, Phase, RuntimeView};
use crate::mempool_map::{pool_sockets, Mempool};
use crate::port::{lemma_all_known, planned, DeviceInfo, PortState, PortView};
use crate::settings::RuntimeSettings;
use crate::topology::{offered, socket_of, CoreId, CoreInfo, SocketId};
use vstd::prelude::*;

verus! {

/// What is being built, or undone.
#[derive(Clone, Copy, Debug, PartialEq, Eq, Structural)]
pub enum Stage {
    /// The pools, one socket after the other.
    Pools,
    /// The master's executor.
    Master,
    /// The workers, one core after the other.
    Workers,
    /// A port: its device is being asked what it supports.
    Probing,
    /// A port: its device is being configured.
    Configuring,
    /// A step has failed; what was built is being taken down.
    Unwinding,
}

/// What the environment reports during assembly.
#[derive(Clone, Copy, Debug, PartialEq, Eq, Structural)]
pub enum BuildEvent {
    /// What was asked for has been done.
    Done,
    /// What was asked for could not be done.
    Failed,
    /// The device has said what it supports.
    Probed(DeviceInfo),
}

/// What the environment is asked to do next during assembly.
#[derive(Debug)]
pub enum Directive {
    /// Create a pool of this size on the socket.
    CreateMempool { socket: SocketId, capacity: usize, cache_size: usize },
    /// Bring up the master's executor, reactor and timer on the calling
    /// thread.
    InitMaster { core: CoreId },
    /// Launch a pinned thread on the core, bring up its executor, and wait
    /// until it reports ready and parks.
    LaunchWorker { core: CoreId, socket: SocketId },
    /// Ask the device of the port at this position of the configuration
    /// which descriptor counts it supports.
    ProbeDevice { port: usize },
    /// Configure the device of the port at this position with the queues of
    /// the port that is pending.
    ConfigurePort { port: usize },
    /// Fire the trigger, then join the thread.
    StopWorker { core: CoreId, shutdown: ShutdownTrigger, join: JoinHandle },
    /// Release the pool on the socket.
    ReleaseMempool { socket: SocketId },
    /// The event answered nothing that was asked; nothing has changed.
    Ignore,
}

/// An assembly under way, as the contracts see it.
pub struct BootView {
    pub config: RuntimeSettings,
    pub topology: Seq<CoreInfo>,
    /// The pools that exist.
    pub pools: Seq<Mempool>,
    pub master: Option<MasterExecutor>,
    /// The workers that are up.
    pub workers: Seq<WorkerExecutor>,
    /// The ports that are configured.
    pub ports: Seq<PortView>,
    /// The port whose device is being configured.
    pub draft: Option<PortView>,
    pub stage: Stage,
    /// Why the assembly is being undone.
    pub failure: Option<RuntimeError>,
}

/// Where an assembly stands after a step.
pub enum ProgressView {
    Next(BootView, Directive),
    Ready(RuntimeView),
    Failed(RuntimeError),
}

/// The socket that the environment gives for `core`.
pub open spec fn seat(topology: Seq<CoreInfo>, core: CoreId) -> SocketId {
    socket_of(topology, core).unwrap()
}

/// The sockets that the environment gives for `cores`, core by core.
pub open spec fn seats(topology: Seq<CoreInfo>, cores: Seq<CoreId>) -> Seq<SocketId> {
    cores.map_values(|c: CoreId| seat(topology, c))
}

/// The first of `cores` that the environment does not offer.
pub open spec fn first_missing(cores: Seq<CoreId>, topology: Seq<CoreInfo>) -> Option<CoreId>
    decreases cores.len(),
{
    if cores.len() == 0 {
        None
    } else if !offered(topology, cores[0]) {
        Some(cores[0])
    } else {
        first_missing(cores.drop_first(), topology)
    }
}

/// Whether one of `ports` goes by `name`.
pub open spec fn name_taken(ports: Seq<PortView>, name: Seq<char>) -> bool {
    exists|j: int| 0 <= j < ports.len() && (#[trigger] ports[j]).name == name
}

impl BootView {
    /// The sockets that get a pool: those of the cores in use, each once.
    pub open spec fn plan(self) -> Seq<SocketId> {
        distinct(seats(self.topology, self.config.cores_in_use()))
    }

    /// The executors as they stand.
    pub open spec fn cores(self) -> CoreMapView {
        CoreMapView { master: self.master.unwrap(), workers: self.workers }
    }

    /// The runtime that the assembly ends in.
    pub open spec fn runtime(self) -> RuntimeView {
        RuntimeView {
            config: self.config,
            mempools: self.pools,
            cores: self.cores(),
            ports: self.ports,
            phase: Phase::Idle,
            cursor: 0,
            failure: None,
        }
    }

    /// An upper bound on the answers that the assembly still needs.
    pub open spec fn steps_left(self) -> int {
        let pools = self.plan().len() as int;
        let workers = self.config.worker_cores().len() as int;
        let ports = self.config.ports@.len() as int;
        let undo = pools + workers + 1;
        match self.stage {
            Stage::Pools => undo + (pools - self.pools.len()) + 1 + workers + 2 * ports,
            Stage::Master => undo + 1 + workers + 2 * ports,
            Stage::Workers => undo + (workers - self.workers.len()) + 2 * ports,
            Stage::Probing => undo + 2 * (ports - self.ports.len()),
            Stage::Configuring => undo + 2 * (ports - self.ports.len()) - 1,
            Stage::Unwinding => (self.workers.len() + self.pools.len()) as int,
        }
    }

    /// The assembly before anything is built.
    pub open spec fn initial(config: RuntimeSettings, topology: Seq<CoreInfo>) -> BootView {
        BootView {
            config,
            topology,
            pools: Seq::empty(),
            master: None,
            workers: Seq::empty(),
            ports: Seq::empty(),
            draft: None,
            stage: Stage::Pools,
            failure: None,
        }
    }

    /// The assembly at another stage.
    pub open spec fn at(self, stage: Stage) -> BootView {
        BootView { stage, ..self }
    }

    /// Goes on creating pools; once each planned socket has one, the master
    /// is brought up.
    pub open spec fn create_pools(self) -> ProgressView {
        let k = self.pools.len() as int;
        if k < self.plan().len() {
            ProgressView::Next(
                self.at(Stage::Pools),
                Directive::CreateMempool {
                    socket: self.plan()[k],
                    capacity: self.config.mempool.capacity,
                    cache_size: self.config.mempool.cache_size,
                },
            )
        } else {
            ProgressView::Next(
                self.at(Stage::Master),
                Directive::InitMaster { core: self.config.master_core },
            )
        }
    }

    /// Goes on launching workers; once each worker core has one, the ports
    /// are built.
    pub open spec fn launch_workers(self) -> ProgressView {
        let k = self.workers.len() as int;
        let list = self.config.worker_cores();
        if k < list.len() {
            ProgressView::Next(
                self.at(Stage::Workers),
                Directive::LaunchWorker { core: list[k], socket: seat(self.topology, list[k]) },
            )
        } else {
            self.build_ports()
        }
    }

    /// Goes on building ports; once each port of the configuration is
    /// configured, the runtime is ready. A port that repeats an earlier
    /// port's name ends the assembly.
    pub open spec fn build_ports(self) -> ProgressView {
        let i = self.ports.len() as int;
        if i < self.config.ports@.len() {
            if name_taken(self.ports, self.config.ports@[i].name@) {
                self.fail(RuntimeError::Port(PortError::DuplicateName(i as usize))).unwind()
            } else {
                ProgressView::Next(
                    self.at(Stage::Probing),
                    Directive::ProbeDevice { port: i as usize },
                )
            }
        } else {
            ProgressView::Ready(self.runtime())
        }
    }

    /// The assembly as it turns back: the error is noted and the ports are
    /// let go of.
    pub open spec fn fail(self, error: RuntimeError) -> BootView {
        BootView {
            failure: Some(error),
            ports: Seq::empty(),
            draft: None,
            stage: Stage::Unwinding,
            ..self
        }
    }

    /// Goes on taking down: the workers, last first, then the pools, last
    /// first; once nothing is left, the assembly has failed with the error
    /// that was noted.
    pub open spec fn unwind(self) -> ProgressView {
        if self.workers.len() > 0 {
            let worker = self.workers.last();
            ProgressView::Next(
                BootView { workers: self.workers.drop_last(), ..self },
                Directive::StopWorker {
                    core: worker.core,
                    shutdown: ShutdownTrigger::of(worker.core),
                    join: JoinHandle::of(worker.core),
                },
            )
        } else if self.pools.len() > 0 {
            ProgressView::Next(
                BootView { pools: self.pools.drop_last(), ..self },
                Directive::ReleaseMempool { socket: self.pools.last().socket },
            )
        } else {
            ProgressView::Failed(self.failure.unwrap())
        }
    }

    /// The first step of an assembly. `eal` is what the environment said
    /// when it was initialised: the cores that it offers, or nothing where
    /// it refused. Every core that the configuration refers to has to be
    /// among them.
    pub open spec fn begin(config: RuntimeSettings, eal: Option<Seq<CoreInfo>>) -> ProgressView {
        match eal {
            None => ProgressView::Failed(RuntimeError::EalInitFailed),
            Some(topology) => match first_missing(config.cores_in_use(), topology) {
                Some(core) => ProgressView::Failed(RuntimeError::CoreUnavailable(core)),
                None => BootView::initial(config, topology).create_pools(),
            },
        }
    }

    /// One step of an assembly: what `event` leaves built, and what is
    /// asked next.
    pub open spec fn advance(self, event: BuildEvent) -> ProgressView {
        match (self.stage, event) {
            (Stage::Pools, BuildEvent::Done) => {
                let pool = Mempool {
                    socket: self.plan()[self.pools.len() as int],
                    capacity: self.config.mempool.capacity,
                    cache_size: self.config.mempool.cache_size,
                };
                (BootView { pools: self.pools.push(pool), ..self }).create_pools()
            },
            (Stage::Pools, BuildEvent::Failed) => self.fail(
                RuntimeError::AllocationFailed(self.plan()[self.pools.len() as int]),
            ).unwind(),
            (Stage::Master, BuildEvent::Done) => {
                let core = self.config.master_core;
                let master = MasterExecutor { core, socket: seat(self.topology, core) };
                (BootView { master: Some(master), ..self }).launch_workers()
            },
            (Stage::Master, BuildEvent::Failed) => self.fail(
                RuntimeError::CoreInitFailed(self.config.master_core),
            ).unwind(),
            (Stage::Workers, BuildEvent::Done) => {
                let core = self.config.worker_cores()[self.workers.len() as int];
                let worker = WorkerExecutor::fresh(core, seat(self.topology, core));
                (BootView { workers: self.workers.push(worker), ..self }).launch_workers()
            },
            (Stage::Workers, BuildEvent::Failed) => self.fail(
                RuntimeError::CoreInitFailed(
                    self.config.worker_cores()[self.workers.len() as int],
                ),
            ).unwind(),
            (Stage::Probing, BuildEvent::Probed(info)) => {
                let i = self.ports.len();
                match planned(
                    i as usize,
                    self.config.ports@[i as int],
                    info,
                    self.cores(),
                    pool_sockets(self.pools),
                ) {
                    Ok(port) => ProgressView::Next(
                        BootView { draft: Some(port), stage: Stage::Configuring, ..self },
                        Directive::ConfigurePort { port: i as usize },
                    ),
                    Err(error) => self.fail(error).unwind(),
                }
            },
            (Stage::Probing, BuildEvent::Failed) => self.fail(
                RuntimeError::Port(PortError::DeviceUnavailable(self.ports.len() as usize)),
            ).unwind(),
            (Stage::Configuring, BuildEvent::Done) => (BootView {
                ports: self.ports.push(self.draft.unwrap()),
                draft: None,
                ..self
            }).build_ports(),
            (Stage::Configuring, BuildEvent::Failed) => self.fail(
                RuntimeError::Port(PortError::ConfigureFailed(self.ports.len() as usize)),
            ).unwind(),
            (Stage::Unwinding, BuildEvent::Done) | (Stage::Unwinding, BuildEvent::Failed) => {
                self.unwind()
            },
            _ => ProgressView::Next(self, Directive::Ignore),
        }
    }
}

/// Where no core is missing, the environment offers each.
pub proof fn lemma_none_missing(cores: Seq<CoreId>, topology: Seq<CoreInfo>)
    requires
        first_missing(cores, topology) is None,
    ensures
        forall|k: int| 0 <= k < cores.len() ==> offered(topology, #[trigger] cores[k]),
    decreases cores.len(),
{
    if cores.len() > 0 {
        lemma_none_missing(cores.drop_first(), topology);
        assert forall|k: int| 0 <= k < cores.len() implies offered(topology, #[trigger] cores[k]) by {
            if k > 0 {
                assert(cores.drop_first()[k - 1] == cores[k]);
            }
        }
    }
}

/// The error on which a step has turned the assembly back, if it has: the
/// one that the assembly has failed with, or that it is being undone for.
pub open spec fn turned_back(progress: ProgressView) -> Option<RuntimeError> {
    match progress {
        ProgressView::Failed(error) => Some(error),
        ProgressView::Next(boot, _) => if boot.stage == Stage::Unwinding {
            boot.failure
        } else {
            None
        },
        ProgressView::Ready(_) => None,
    }
}

/// Whether what a step gave is well-formed.
pub open spec fn progress_wf(progress: ProgressView) -> bool {
    match progress {
        ProgressView::Next(boot, _) => boot.wf(),
        ProgressView::Ready(runtime) => runtime.wf(),
        ProgressView::Failed(_) => true,
    }
}

impl BootView {
    /// The pools that exist are the first of those planned.
    pub open spec fn pools_as_planned(self) -> bool {
        &&& self.pools.len() <= self.plan().len()
        &&& forall|i: int|
            0 <= i < self.pools.len() ==> #[trigger] self.pools[i] == (Mempool {
                socket: self.plan()[i],
                capacity: self.config.mempool.capacity,
                cache_size: self.config.mempool.cache_size,
            })
    }

    /// The master, once it is up, is that of the configuration; before, no
    /// worker is up.
    pub open spec fn master_as_planned(self) -> bool {
        match self.master {
            Some(m) => m == (MasterExecutor {
                core: self.config.master_core,
                socket: seat(self.topology, self.config.master_core),
            }),
            None => self.workers.len() == 0,
        }
    }

    /// The workers that are up are those of the first worker cores, each
    /// parked and armed.
    pub open spec fn workers_as_planned(self) -> bool {
        &&& self.workers.len() <= self.config.worker_cores().len()
        &&& forall|i: int|
            0 <= i < self.workers.len() ==> #[trigger] self.workers[i] == WorkerExecutor::fresh(
                self.config.worker_cores()[i],
                seat(self.topology, self.config.worker_cores()[i]),
            )
    }

    /// The ports that are configured are the first of the configuration,
    /// none started, no two of one name.
    pub open spec fn ports_as_planned(self) -> bool {
        &&& self.ports.len() <= self.config.ports@.len()
        &&& forall|i: int|
            0 <= i < self.ports.len() ==> port_matches(
                #[trigger] self.ports[i],
                i,
                self.config.ports@[i],
                self.cores(),
            ) && self.ports[i].state == PortState::Configured
        &&& forall|i: int, j: int|
            0 <= i < j < self.ports.len() ==> (#[trigger] self.ports[i]).name != (
            #[trigger] self.ports[j]).name
    }

    /// Pools, master and workers are all there.
    pub open spec fn executors_up(self) -> bool {
        &&& self.pools.len() == self.plan().len()
        &&& self.master is Some
        &&& self.workers.len() == self.config.worker_cores().len()
    }

    /// What holds of an assembly at every step: what is built is the first
    /// part of what the configuration asks for, and the stage says how far it
    /// has got.
    pub open spec fn wf(self) -> bool {
        &&& first_missing(self.config.cores_in_use(), self.topology) is None
        &&& self.pools_as_planned()
        &&& self.master_as_planned()
        &&& self.workers_as_planned()
        &&& self.ports_as_planned()
        &&& match self.stage {
            Stage::Pools => {
                &&& self.pools.len() < self.plan().len()
                &&& self.master is None
                &&& self.ports.len() == 0
                &&& self.draft is None
                &&& self.failure is None
            },
            Stage::Master => {
                &&& self.pools.len() == self.plan().len()
                &&& self.master is None
                &&& self.ports.len() == 0
                &&& self.draft is None
                &&& self.failure is None
            },
            Stage::Workers => {
                &&& self.pools.len() == self.plan().len()
                &&& self.master is Some
                &&& self.workers.len() < self.config.worker_cores().len()
                &&& self.ports.len() == 0
                &&& self.draft is None
                &&& self.failure is None
            },
            Stage::Probing => {
                &&& self.executors_up()
                &&& self.ports.len() < self.config.ports@.len()
                &&& !name_taken(self.ports, self.config.ports@[self.ports.len() as int].name@)
                &&& self.draft is None
                &&& self.failure is None
            },
            Stage::Configuring => {
                &&& self.executors_up()
                &&& self.ports.len() < self.config.ports@.len()
                &&& !name_taken(self.ports, self.config.ports@[self.ports.len() as int].name@)
                &&& self.draft is Some
                &&& port_matches(
                    self.draft.unwrap(),
                    self.ports.len() as int,
                    self.config.ports@[self.ports.len() as int],
                    self.cores(),
                )
                &&& self.draft.unwrap().state == PortState::Configured
                &&& self.failure is None
            },
            Stage::Unwinding => {
                &&& self.ports.len() == 0
                &&& self.draft is None
                &&& self.failure is Some
            },
        }
    }

    /// The workers that are up sit where the environment says, no core has
    /// two of them, and the master core has none.
    pub proof fn lemma_seating(self)
        requires
            self.master is Some,
            self.master_as_planned(),
            self.workers_as_planned(),
        ensures
            self.cores().wf(),
            worker_ids(self.workers) == self.config.worker_cores().take(self.workers.len() as int),
            forall|i: int|
                0 <= i < self.workers.len() ==> self.cores().socket(
                    (#[trigger] self.workers[i]).core,
                ) == seat(self.topology, self.workers[i].core),
    {
        let all = self.config.seated();
        let list = self.config.worker_cores();
        let ids = worker_ids(self.workers);
        self.config.lemma_seated();
        assert forall|i: int| 0 <= i < self.workers.len() implies #[trigger] ids[i] == all[i + 1] by {
            assert(self.workers[i].core == list[i]);
        }
        assert(ids =~= list.take(self.workers.len() as int));
        assert forall|i: int, j: int| 0 <= i < ids.len() && 0 <= j < ids.len() && i != j implies ids[i]
            != ids[j] by {
            assert(ids[i] == all[i + 1]);
            assert(ids[j] == all[j + 1]);
        }
        if ids.contains(self.config.master_core) {
            let j = choose|j: int| 0 <= j < ids.len() && ids[j] == self.config.master_core;
            assert(ids[j] == all[j + 1]);
            assert(all[0] == all[j + 1]);
        }
        assert forall|i: int| 0 <= i < self.workers.len() implies (#[trigger] self.workers[i]).wf() by {
            assert(self.workers[i].armed());
        }
        assert forall|i: int| 0 <= i < self.workers.len() implies self.cores().socket(
            (#[trigger] self.workers[i]).core,
        ) == seat(self.topology, self.workers[i].core) by {
            let c = self.workers[i].core;
            assert(ids[i] == c);
            let k = ids.index_of(c);
            assert(0 <= k < ids.len() && ids[k] == c);
            assert(k == i);
        }
    }

    /// The environment offers every core that gets an executor.
    pub proof fn lemma_seated_is_offered(self, k: int)
        requires
            first_missing(self.config.cores_in_use(), self.topology) is None,
            0 <= k < self.config.seated().len(),
        ensures
            offered(self.topology, self.config.seated()[k]),
    {
        let all = self.config.cores_in_use();
        let core = self.config.seated()[k];
        self.config.lemma_seated();
        assert(self.config.seated().contains(core));
        assert(all.contains(core));
        let at = choose|at: int| 0 <= at < all.len() && all[at] == core;
        lemma_none_missing(all, self.topology);
        assert(offered(self.topology, all[at]));
    }

    /// The core whose worker is launched next is not the master's and has
    /// no worker yet.
    pub proof fn lemma_next_worker_is_new(self)
        requires
            self.master is Some,
            self.master_as_planned(),
            self.workers_as_planned(),
            self.workers.len() < self.config.worker_cores().len(),
        ensures
            self.config.worker_cores()[self.workers.len() as int] != self.config.master_core,
            !worker_ids(self.workers).contains(self.config.worker_cores()[self.workers.len() as int]),
    {
        let all = self.config.seated();
        let list = self.config.worker_cores();
        let k = self.workers.len() as int;
        let ids = worker_ids(self.workers);
        self.config.lemma_seated();
        assert(list[k] == all[k + 1]);
        if ids.contains(list[k]) {
            let j = choose|j: int| 0 <= j < ids.len() && ids[j] == list[k];
            assert(self.workers[j].core == list[j]);
            assert(list[j] == all[j + 1]);
        }
    }

    /// With everything built, the runtime is well-formed.
    pub proof fn lemma_ready(self)
        requires
            first_missing(self.config.cores_in_use(), self.topology) is None,
            self.pools_as_planned(),
            self.master_as_planned(),
            self.workers_as_planned(),
            self.ports_as_planned(),
            self.executors_up(),
            self.ports.len() == self.config.ports@.len(),
        ensures
            self.runtime().wf(),
    {
        let rt = self.runtime();
        let all = self.config.cores_in_use();
        let list = self.config.worker_cores();
        let ids = worker_ids(self.workers);
        self.lemma_seating();
        self.config.lemma_master_first();
        self.config.lemma_seated();
        assert(list.take(list.len() as int) =~= list);
        assert(pool_sockets(self.pools) =~= self.plan());
        assert(self.config.ports@.len() == self.config.ports.len());
        assert(sites(rt.cores, all) =~= seats(self.topology, all)) by {
            assert forall|k: int| 0 <= k < all.len() implies site(rt.cores, all[k]) == seat(
                self.topology,
                all[k],
            ) by {
                let c = all[k];
                if c != self.config.master_core {
                    // a core in use has a worker: the worker list names it,
                    // or a port does, and every port's cores have workers
                    assert(all.contains(c));
                    self.config.lemma_in_use(c);
                    if self.config.cores@.contains(c) {
                        assert(self.config.seated().contains(c));
                        let j = choose|j: int|
                            0 <= j < self.config.seated().len() && self.config.seated()[j] == c;
                        assert(list[j - 1] == c);
                        assert(ids[j - 1] == c);
                    } else {
                        let (i, q) = choose|i: int, q: int|
                            0 <= i < self.config.ports@.len() && 0 <= q
                                < self.config.ports@[i].cores@.len()
                                && #[trigger] self.config.ports@[i].cores@[q] == c;
                        assert(port_matches(self.ports[i], i, self.config.ports@[i], self.cores()));
                        assert(self.cores().has(self.config.ports@[i].cores@[q]));
                    }
                    assert(ids.contains(c));
                    let w = choose|w: int| 0 <= w < ids.len() && ids[w] == c;
                    assert(self.workers[w].core == c);
                }
            }
        }
        assert forall|i: int| 0 <= i < rt.ports.len() implies #[trigger] rt.port_as_configured(i) by {
            assert(port_matches(self.ports[i], i, self.config.ports@[i], self.cores()));
        }
        assert(rt.ports_split(0, PortState::Started, PortState::Configured));
        assert(rt.released(0)) by {
            assert forall|i: int| 0 <= i < rt.cores.workers.len() implies (
            #[trigger] rt.cores.workers[i]).parked == (i >= 0) by {
                assert(self.workers[i].parked);
            }
        }
        assert(rt.disarmed(0)) by {
            assert forall|i: int| 0 <= i < rt.cores.workers.len() implies (
            #[trigger] rt.cores.workers[i]).armed() by {
                assert(self.workers[i].armed());
            }
        }
    }

    proof fn lemma_unwind(self)
        requires
            first_missing(self.config.cores_in_use(), self.topology) is None,
            self.pools_as_planned(),
            self.master_as_planned(),
            self.workers_as_planned(),
            self.ports.len() == 0,
            self.draft is None,
            self.failure is Some,
            self.stage == Stage::Unwinding,
        ensures
            progress_wf(self.unwind()),
    {
        if self.workers.len() > 0 {
            let next = BootView { workers: self.workers.drop_last(), ..self };
            assert forall|i: int| 0 <= i < next.workers.len() implies #[trigger] next.workers[i]
                == WorkerExecutor::fresh(
                self.config.worker_cores()[i],
                seat(self.topology, self.config.worker_cores()[i]),
            ) by {
                assert(next.workers[i] == self.workers[i]);
            }
        } else if self.pools.len() > 0 {
            let next = BootView { pools: self.pools.drop_last(), ..self };
            assert forall|i: int| 0 <= i < next.pools.len() implies #[trigger] next.pools[i]
                == (Mempool {
                socket: self.plan()[i],
                capacity: self.config.mempool.capacity,
                cache_size: self.config.mempool.cache_size,
            }) by {
                assert(next.pools[i] == self.pools[i]);
            }
        }
    }

    proof fn lemma_fail_unwind(self, error: RuntimeError)
        requires
            first_missing(self.config.cores_in_use(), self.topology) is None,
            self.pools_as_planned(),
            self.master_as_planned(),
            self.workers_as_planned(),
        ensures
            progress_wf(self.fail(error).unwind()),
    {
        self.fail(error).lemma_unwind();
    }

    proof fn lemma_build_ports(self)
        requires
            first_missing(self.config.cores_in_use(), self.topology) is None,
            self.pools_as_planned(),
            self.master_as_planned(),
            self.workers_as_planned(),
            self.ports_as_planned(),
            self.executors_up(),
            self.draft is None,
            self.failure is None,
        ensures
            progress_wf(self.build_ports()),
    {
        let i = self.ports.len() as int;
        if i < self.config.ports@.len() {
            if name_taken(self.ports, self.config.ports@[i].name@) {
                self.lemma_fail_unwind(RuntimeError::Port(PortError::DuplicateName(i as usize)));
            } else {
                let next = self.at(Stage::Probing);
                assert(next.cores() == self.cores());
            }
        } else {
            self.lemma_ready();
        }
    }

    proof fn lemma_launch_workers(self)
        requires
            first_missing(self.config.cores_in_use(), self.topology) is None,
            self.pools_as_planned(),
            self.pools.len() == self.plan().len(),
            self.master is Some,
            self.master_as_planned(),
            self.workers_as_planned(),
            self.ports.len() == 0,
            self.draft is None,
            self.failure is None,
        ensures
            progress_wf(self.launch_workers()),
    {
        if self.workers.len() < self.config.worker_cores().len() {
            let next = self.at(Stage::Workers);
            assert(next.cores() == self.cores());
        } else {
            self.lemma_build_ports();
        }
    }

    proof fn lemma_create_pools(self)
        requires
            first_missing(self.config.cores_in_use(), self.topology) is None,
            self.pools_as_planned(),
            self.master is None,
            self.workers.len() == 0,
            self.ports.len() == 0,
            self.draft is None,
            self.failure is None,
        ensures
            progress_wf(self.create_pools()),
    {
    }

    /// The first step gives a well-formed assembly.
    pub proof fn lemma_begin_wf(config: RuntimeSettings, eal: Option<Seq<CoreInfo>>)
        ensures
            progress_wf(BootView::begin(config, eal)),
    {
        if let Some(topology) = eal {
            if first_missing(config.cores_in_use(), topology) is None {
                BootView::initial(config, topology).lemma_create_pools();
            }
        }
    }

    /// Every step leaves a well-formed assembly well-formed, and the runtime
    /// that it ends in is well-formed.
    pub proof fn lemma_advance_keeps_wf(self, event: BuildEvent)
        requires
            self.wf(),
        ensures
            progress_wf(self.advance(event)),
    {
        match (self.stage, event) {
            (Stage::Pools, BuildEvent::Done) => {
                let pool = Mempool {
                    socket: self.plan()[self.pools.len() as int],
                    capacity: self.config.mempool.capacity,
                    cache_size: self.config.mempool.cache_size,
                };
                let next = BootView { pools: self.pools.push(pool), ..self };
                assert forall|i: int| 0 <= i < next.pools.len() implies #[trigger] next.pools[i]
                    == (Mempool {
                    socket: self.plan()[i],
                    capacity: self.config.mempool.capacity,
                    cache_size: self.config.mempool.cache_size,
                }) by {
                    if i < self.pools.len() {
                        assert(next.pools[i] == self.pools[i]);
                    }
                }
                next.lemma_create_pools();
            },
            (Stage::Pools, BuildEvent::Failed) => {
                self.lemma_fail_unwind(
                    RuntimeError::AllocationFailed(self.plan()[self.pools.len() as int]),
                );
            },
            (Stage::Master, BuildEvent::Done) => {
                let core = self.config.master_core;
                let master = MasterExecutor { core, socket: seat(self.topology, core) };
                (BootView { master: Some(master), ..self }).lemma_launch_workers();
            },
            (Stage::Master, BuildEvent::Failed) => {
                self.lemma_fail_unwind(RuntimeError::CoreInitFailed(self.config.master_core));
            },
            (Stage::Workers, BuildEvent::Done) => {
                let core = self.config.worker_cores()[self.workers.len() as int];
                let worker = WorkerExecutor::fresh(core, seat(self.topology, core));
                let next = BootView { workers: self.workers.push(worker), ..self };
                assert forall|i: int| 0 <= i < next.workers.len() implies #[trigger] next.workers[i]
                    == WorkerExecutor::fresh(
                    self.config.worker_cores()[i],
                    seat(self.topology, self.config.worker_cores()[i]),
                ) by {
                    if i < self.workers.len() {
                        assert(next.workers[i] == self.workers[i]);
                    }
                }
                next.lemma_launch_workers();
            },
            (Stage::Workers, BuildEvent::Failed) => {
                self.lemma_fail_unwind(
                    RuntimeError::CoreInitFailed(
                        self.config.worker_cores()[self.workers.len() as int],
                    ),
                );
            },
            (Stage::Probing, BuildEvent::Probed(info)) => {
                let i = self.ports.len();
                let settings = self.config.ports@[i as int];
                match planned(i as usize, settings, info, self.cores(), pool_sockets(self.pools)) {
                    Ok(port) => {
                        let next = BootView {
                            draft: Some(port),
                            stage: Stage::Configuring,
                            ..self
                        };
                        assert(next.cores() == self.cores());
                        lemma_all_known(distinct(settings.cores@), self.cores());
                        lemma_distinct(settings.cores@);
                        assert forall|k: int| 0 <= k < settings.cores@.len() implies self.cores().has(
                            #[trigger] settings.cores@[k],
                        ) by {
                            assert(settings.cores@.contains(settings.cores@[k]));
                            assert(distinct(settings.cores@).contains(settings.cores@[k]));
                        }
                    },
                    Err(error) => {
                        self.lemma_fail_unwind(error);
                    },
                }
            },
            (Stage::Probing, BuildEvent::Failed) => {
                self.lemma_fail_unwind(
                    RuntimeError::Port(PortError::DeviceUnavailable(self.ports.len() as usize)),
                );
            },
            (Stage::Configuring, BuildEvent::Done) => {
                let i = self.ports.len() as int;
                let port = self.draft.unwrap();
                let next = BootView { ports: self.ports.push(port), draft: None, ..self };
                assert(next.cores() == self.cores());
                assert forall|k: int| 0 <= k < next.ports.len() implies port_matches(
                    #[trigger] next.ports[k],
                    k,
                    self.config.ports@[k],
                    next.cores(),
                ) && next.ports[k].state == PortState::Configured by {
                    if k < i {
                        assert(next.ports[k] == self.ports[k]);
                    }
                }
                assert forall|a: int, b: int| 0 <= a < b < next.ports.len() implies (
                #[trigger] next.ports[a]).name != (#[trigger] next.ports[b]).name by {
                    assert(next.ports[a] == self.ports[a]);
                    if b < i {
                        assert(next.ports[b] == self.ports[b]);
                    }
                }
                next.lemma_build_ports();
            },
            (Stage::Configuring, BuildEvent::Failed) => {
                self.lemma_fail_unwind(
                    RuntimeError::Port(PortError::ConfigureFailed(self.ports.len() as usize)),
                );
            },
            (Stage::Unwinding, BuildEvent::Done) | (Stage::Unwinding, BuildEvent::Failed) => {
                self.lemma_unwind();
            },
            _ => {},
        }
    }
}

} // verus!
