//! Assembling a runtime against the environment.

use crate::assembly::{
    first_missing, lemma_none_missing, name_taken, seats, BootView, BuildEvent, Directive,
    ProgressView, Stage,
};
use crate::core_map::{CoreMap, MasterExecutor};
use crate::error::{PortError, RuntimeError};
use crate::mempool_map::{pool_sockets, MempoolMap};
use crate::port::{Port, PortView};
use crate::runtime::{port_views, Runtime};
use crate::settings::RuntimeSettings;
use crate::signal::UnixSignal;
use crate::topology::{offered, CoreId, CoreInfo, SocketId};
use vstd::prelude::*;

verus! {

/// A runtime that is being assembled.
pub struct Bootstrap {
    config: RuntimeSettings,
    topology: Vec<CoreInfo>,
    cores: Vec<CoreId>,
    plan: MempoolMap,
    created: usize,
    core_map: Option<CoreMap>,
    ports: Vec<Port>,
    draft: Option<Port>,
    stage: Stage,
    failure: Option<RuntimeError>,
}

/// Where an assembly stands after a step: there is more to do, or the
/// runtime is ready, or the assembly has failed and nothing is left of it.
pub enum Progress<H> {
    Next(Bootstrap, Directive),
    Ready(Runtime<H>),
    Failed(RuntimeError),
}

/// What the environment said when it was initialised, as the contracts see
/// it.
pub open spec fn offer(eal: Option<Vec<CoreInfo>>) -> Option<Seq<CoreInfo>> {
    match eal {
        Some(topology) => Some(topology@),
        None => None,
    }
}

impl View for Bootstrap {
    type V = BootView;

    closed spec fn view(&self) -> BootView {
        BootView {
            config: self.config,
            topology: self.topology@,
            pools: self.plan@.take(self.created as int),
            master: match self.core_map {
                Some(map) => Some(map@.master),
                None => None,
            },
            workers: match self.core_map {
                Some(map) => map@.workers,
                None => Seq::empty(),
            },
            ports: port_views(self.ports@),
            draft: match self.draft {
                Some(port) => Some(port@),
                None => None,
            },
            stage: self.stage,
            failure: self.failure,
        }
    }
}

impl<H> View for Progress<H> {
    type V = ProgressView;

    open spec fn view(&self) -> ProgressView {
        match *self {
            Progress::Next(boot, directive) => ProgressView::Next(boot@, directive),
            Progress::Ready(runtime) => ProgressView::Ready(runtime@),
            Progress::Failed(error) => ProgressView::Failed(error),
        }
    }
}

impl<H: Fn(UnixSignal) -> bool> Progress<H> {
    /// The assembly, or the runtime, is well-formed; a runtime that is ready
    /// has no handler set.
    pub open spec fn wf(&self) -> bool {
        match *self {
            Progress::Next(boot, _) => boot.wf(),
            Progress::Ready(runtime) => runtime.wf() && runtime.handler() is None,
            Progress::Failed(_) => true,
        }
    }
}

impl Bootstrap {
    /// What the bookkeeping adds to what the contracts see: the list of
    /// cores that get an executor and the planned pools are those of the
    /// configuration.
    pub closed spec fn grounded(&self) -> bool {
        &&& self.cores@ == self.config.seated()
        &&& self.plan.wf()
        &&& pool_sockets(self.plan@) == self@.plan()
        &&& forall|i: int|
            0 <= i < self.plan@.len() ==> (#[trigger] self.plan@[i]).capacity
                == self.config.mempool.capacity && self.plan@[i].cache_size
                == self.config.mempool.cache_size
        &&& self.created <= self.plan@.len()
    }

    /// What holds of an assembly at every step.
    pub open spec fn wf(&self) -> bool {
        self@.wf() && self.grounded()
    }

    /// The port whose device is to be configured.
    pub fn pending_port(&self) -> (port: Option<&Port>)
        ensures
            match port {
                Some(p) => self@.draft == Some(p@),
                None => self@.draft is None,
            },
    {
        self.draft.as_ref()
    }

    /// The configuration that is being assembled.
    pub fn config(&self) -> (config: &RuntimeSettings)
        ensures
            *config == self@.config,
    {
        &self.config
    }

    fn unwind<H: Fn(UnixSignal) -> bool>(self) -> (progress: Progress<H>)
        requires
            self.grounded(),
            self@.master is Some ==> self@.cores().wf(),
            self@.workers_as_planned(),
            self@.failure is Some,
        ensures
            progress@ == self@.unwind(),
            match progress {
                Progress::Next(boot, _) => boot.grounded(),
                _ => true,
            },
    {
        let mut boot = self;
        let popped = match &mut boot.core_map {
            Some(map) => map.pop(),
            None => None,
        };
        match popped {
            Some(worker) => {
                proof {
                    assert(worker.armed());
                }
                let core = worker.core;
                let shutdown = worker.shutdown.unwrap();
                let join = worker.join.unwrap();
                Progress::Next(boot, Directive::StopWorker { core, shutdown, join })
            },
            None => {
                if boot.created > 0 {
                    let ghost before = boot@.pools;
                    boot.created = boot.created - 1;
                    let socket = boot.plan.at(boot.created).socket;
                    proof {
                        assert(boot@.pools =~= before.drop_last());
                    }
                    Progress::Next(boot, Directive::ReleaseMempool { socket })
                } else {
                    Progress::Failed(boot.failure.unwrap())
                }
            },
        }
    }

    fn fail<H: Fn(UnixSignal) -> bool>(self, error: RuntimeError) -> (progress: Progress<H>)
        requires
            self.grounded(),
            self@.master is Some ==> self@.cores().wf(),
            self@.workers_as_planned(),
        ensures
            progress@ == self@.fail(error).unwind(),
            match progress {
                Progress::Next(boot, _) => boot.grounded(),
                _ => true,
            },
    {
        let mut boot = self;
        boot.failure = Some(error);
        boot.ports = Vec::new();
        boot.draft = None;
        boot.stage = Stage::Unwinding;
        proof {
            assert(boot@.ports =~= Seq::<PortView>::empty());
        }
        boot.unwind()
    }

    fn ready<H: Fn(UnixSignal) -> bool>(self) -> (runtime: Runtime<H>)
        requires
            self.grounded(),
            self@.executors_up(),
        ensures
            runtime@ == self@.runtime(),
            runtime.handler() is None,
    {
        proof {
            assert(self.plan@.take(self.created as int) =~= self.plan@);
        }
        Runtime::assemble(self.config, self.plan, self.core_map.unwrap(), self.ports)
    }

    fn name_is_taken(&self, name: &String) -> (taken: bool)
        ensures
            taken == name_taken(self@.ports, name@),
    {
        let mut j: usize = 0;
        while j < self.ports.len()
            invariant
                j <= self.ports.len(),
                forall|k: int| 0 <= k < j ==> (#[trigger] self@.ports[k]).name != name@,
            decreases self.ports.len() - j,
        {
            if self.ports[j].has_name(name) {
                proof {
                    assert(self@.ports[j as int].name == name@);
                }
                return true;
            }
            j += 1;
        }
        false
    }

    fn build_ports<H: Fn(UnixSignal) -> bool>(self) -> (progress: Progress<H>)
        requires
            self.grounded(),
            self@.executors_up(),
            self@.cores().wf(),
            self@.workers_as_planned(),
        ensures
            progress@ == self@.build_ports(),
            match progress {
                Progress::Next(boot, _) => boot.grounded(),
                Progress::Ready(runtime) => runtime.handler() is None,
                _ => true,
            },
    {
        let mut boot = self;
        let i = boot.ports.len();
        proof {
            assert(boot@.ports.len() == i);
        }
        if i < boot.config.ports.len() {
            if boot.name_is_taken(&boot.config.ports[i].name) {
                boot.fail(RuntimeError::Port(PortError::DuplicateName(i)))
            } else {
                boot.stage = Stage::Probing;
                Progress::Next(boot, Directive::ProbeDevice { port: i })
            }
        } else {
            Progress::Ready(boot.ready())
        }
    }

    fn launch_workers<H: Fn(UnixSignal) -> bool>(self) -> (progress: Progress<H>)
        requires
            self.grounded(),
            self@.pools.len() == self@.plan().len(),
            self@.master is Some,
            self@.cores().wf(),
            self@.workers_as_planned(),
            first_missing(self@.config.cores_in_use(), self@.topology) is None,
        ensures
            progress@ == self@.launch_workers(),
            match progress {
                Progress::Next(boot, _) => boot.grounded(),
                Progress::Ready(runtime) => runtime.handler() is None,
                _ => true,
            },
    {
        let mut boot = self;
        let k = match &boot.core_map {
            Some(map) => map.len(),
            None => 0,
        };
        proof {
            boot.config.lemma_seated();
            assert(boot.config.worker_cores().len() == boot.cores@.len() - 1);
        }
        let seated = boot.cores.len();
        if k + 1 < seated {
            let core = boot.cores[k + 1];
            proof {
                assert(boot.config.worker_cores()[k as int] == core);
                boot@.lemma_seated_is_offered(k + 1);
            }
            let socket = core.socket_id(&boot.topology).unwrap();
            boot.stage = Stage::Workers;
            Progress::Next(boot, Directive::LaunchWorker { core, socket })
        } else {
            boot.build_ports()
        }
    }

    fn create_pools<H: Fn(UnixSignal) -> bool>(self) -> (progress: Progress<H>)
        requires
            self.grounded(),
        ensures
            progress@ == self@.create_pools(),
            match progress {
                Progress::Next(boot, _) => boot.grounded(),
                _ => true,
            },
    {
        let mut boot = self;
        if boot.created < boot.plan.len() {
            let pool = boot.plan.at(boot.created);
            proof {
                assert(pool_sockets(boot.plan@)[boot.created as int] == pool.socket);
            }
            boot.stage = Stage::Pools;
            Progress::Next(
                boot,
                Directive::CreateMempool {
                    socket: pool.socket,
                    capacity: pool.capacity,
                    cache_size: pool.cache_size,
                },
            )
        } else {
            boot.stage = Stage::Master;
            let core = boot.config.master_core;
            Progress::Next(boot, Directive::InitMaster { core })
        }
    }

    /// One step of the assembly: takes in what the environment reports on
    /// the directive that was given last, and gives the next one, or the
    /// runtime, or the error.
    ///
    /// The pools are created first, one for each socket that a core sits on
    /// which the configuration refers to; then the master's executor is
    /// brought up, then one worker on each core of the worker list but the
    /// master's; then the ports are built in the order of the configuration.
    /// A port that repeats the name of an earlier one is refused; for the
    /// others the device is probed, the port is laid out against the workers
    /// and against what the device advertises, so that a port on a core
    /// without a worker is refused, and the device is configured. Where a step fails, the workers that are up are shut down
    /// and joined, last first, then the pools that exist are released, last
    /// first, and the assembly fails with the error of that step. An event
    /// that answers nothing that was asked is ignored.
    pub fn advance<H: Fn(UnixSignal) -> bool>(self, event: BuildEvent) -> (progress: Progress<H>)
        requires
            self.wf(),
        ensures
            progress@ == self@.advance(event),
            progress.wf(),
    {
        let mut boot = self;
        let ghost start = boot@;
        proof {
            boot@.lemma_advance_keeps_wf(event);
            if boot@.master is Some {
                boot@.lemma_seating();
            }
            lemma_none_missing(boot.config.cores_in_use(), boot.topology@);
            boot.config.lemma_master_first();
        }
        match (boot.stage, event) {
            (Stage::Pools, BuildEvent::Done) => {
                let ghost before = boot@.pools;
                proof {
                    assert(boot@.pools.len() == boot.created);
                    assert(boot@.plan().len() == boot.plan@.len());
                    assert(pool_sockets(boot.plan@)[boot.created as int]
                        == boot.plan@[boot.created as int].socket);
                }
                boot.created = boot.created + 1;
                proof {
                    assert(boot@.pools =~= before.push(boot.plan@[boot.created - 1]));
                }
                boot.create_pools()
            },
            (Stage::Pools, BuildEvent::Failed) => {
                let socket = boot.plan.at(boot.created).socket;
                proof {
                    assert(pool_sockets(boot.plan@)[boot.created as int] == socket);
                }
                boot.fail(RuntimeError::AllocationFailed(socket))
            },
            (Stage::Master, BuildEvent::Done) => {
                let core = boot.config.master_core;
                proof {
                    assert(offered(boot.topology@, boot.config.cores_in_use()[0]));
                }
                let socket = core.socket_id(&boot.topology).unwrap();
                boot.core_map = Some(CoreMap::new(MasterExecutor { core, socket }));
                boot.launch_workers()
            },
            (Stage::Master, BuildEvent::Failed) => {
                let core = boot.config.master_core;
                boot.fail(RuntimeError::CoreInitFailed(core))
            },
            (Stage::Workers, BuildEvent::Done) => {
                let mut map = boot.core_map.take().unwrap();
                let k = map.len();
                proof {
                    boot.config.lemma_seated();
                    assert(boot.cores@.len() == boot.cores.len());
                    assert(boot.config.worker_cores().len() == boot.cores@.len() - 1);
                }
                let core = boot.cores[k + 1];
                proof {
                    assert(boot.config.worker_cores()[k as int] == core);
                    start.lemma_seated_is_offered(k + 1);
                    start.lemma_next_worker_is_new();
                }
                let socket = core.socket_id(&boot.topology).unwrap();
                let added = map.register(core, socket);
                boot.core_map = Some(map);
                proof {
                    assert(added);
                    boot@.lemma_seating();
                }
                boot.launch_workers()
            },
            (Stage::Workers, BuildEvent::Failed) => {
                let k = match &boot.core_map {
                    Some(map) => map.len(),
                    None => 0,
                };
                proof {
                    boot.config.lemma_seated();
                    assert(boot.cores@.len() == boot.cores.len());
                    assert(boot.config.worker_cores().len() == boot.cores@.len() - 1);
                }
                let core = boot.cores[k + 1];
                proof {
                    assert(boot.config.worker_cores()[k as int] == core);
                }
                boot.fail(RuntimeError::CoreInitFailed(core))
            },
            (Stage::Probing, BuildEvent::Probed(info)) => {
                let i = boot.ports.len();
                proof {
                    assert(boot@.ports.len() == i);
                    assert(boot.plan@.take(boot.created as int) =~= boot.plan@);
                }
                let laid_out = match &boot.core_map {
                    Some(map) => {
                        let mut pools = boot.plan.borrow_mut();
                        Port::plan(i, &boot.config.ports[i], info, map, &mut pools)
                    },
                    None => Err(RuntimeError::CoreInitFailed(boot.config.master_core)),
                };
                match laid_out {
                    Ok(port) => {
                        boot.draft = Some(port);
                        boot.stage = Stage::Configuring;
                        Progress::Next(boot, Directive::ConfigurePort { port: i })
                    },
                    Err(error) => boot.fail(error),
                }
            },
            (Stage::Probing, BuildEvent::Failed) => {
                let i = boot.ports.len();
                proof {
                    assert(boot@.ports.len() == i);
                }
                boot.fail(RuntimeError::Port(PortError::DeviceUnavailable(i)))
            },
            (Stage::Configuring, BuildEvent::Done) => {
                let ghost before = boot@.ports;
                let port = boot.draft.take().unwrap();
                boot.ports.push(port);
                proof {
                    assert(boot@.ports =~= before.push(port@));
                }
                boot.build_ports()
            },
            (Stage::Configuring, BuildEvent::Failed) => {
                let i = boot.ports.len();
                proof {
                    assert(boot@.ports.len() == i);
                }
                boot.fail(RuntimeError::Port(PortError::ConfigureFailed(i)))
            },
            (Stage::Unwinding, BuildEvent::Done) | (Stage::Unwinding, BuildEvent::Failed) => {
                boot.unwind()
            },
            _ => Progress::Next(boot, Directive::Ignore),
        }
    }
}

impl<H: Fn(UnixSignal) -> bool> Runtime<H> {
    /// Begins the assembly of a runtime from config settings.
    ///
    /// `eal` is what the environment said when it was initialised: the cores
    /// that it offers, each with its socket, or `None` where it refused.
    /// Where it refused, or does not offer a core that the configuration
    /// refers to, the assembly fails at once and nothing has been built.
    /// Otherwise the first directive is given; `advance` goes on from there.
    pub fn build(config: RuntimeSettings, eal: Option<Vec<CoreInfo>>) -> (progress: Progress<H>)
        ensures
            progress@ == BootView::begin(
                config,
                offer(eal),
            ),
            progress.wf(),
    {
        proof {
            BootView::lemma_begin_wf(
                config,
                offer(eal),
            );
        }
        let topology = match eal {
            Some(topology) => topology,
            None => {
                return Progress::Failed(RuntimeError::EalInitFailed);
            },
        };
        let cores = config.all_cores();
        let mut sockets: Vec<SocketId> = Vec::new();
        let mut k: usize = 0;
        proof {
            assert(cores@.skip(0) =~= cores@);
            assert(seats(topology@, cores@.take(0)) =~= sockets@);
        }
        while k < cores.len()
            invariant
                k <= cores.len(),
                cores@ == config.cores_in_use(),
                offer(eal) == Some(topology@),
                first_missing(cores@, topology@) == first_missing(cores@.skip(k as int), topology@),
                sockets@ == seats(topology@, cores@.take(k as int)),
            decreases cores.len() - k,
        {
            proof {
                assert(cores@.skip(k as int).drop_first() =~= cores@.skip(k + 1));
            }
            match cores[k].socket_id(&topology) {
                Some(socket) => {
                    sockets.push(socket);
                    proof {
                        assert(sockets@ =~= seats(topology@, cores@.take(k + 1)));
                    }
                },
                None => {
                    proof {
                        assert(cores@.skip(k as int)[0] == cores@[k as int]);
                    }
                    return Progress::Failed(RuntimeError::CoreUnavailable(cores[k]));
                },
            }
            k += 1;
        }
        proof {
            assert(cores@.take(cores.len() as int) =~= cores@);
        }
        let plan = MempoolMap::new(config.mempool.capacity, config.mempool.cache_size, &sockets);
        let seated = config.executor_cores();
        let boot = Bootstrap {
            config,
            topology,
            cores: seated,
            plan,
            created: 0,
            core_map: None,
            ports: Vec::new(),
            draft: None,
            stage: Stage::Pools,
            failure: None,
        };
        proof {
            assert(boot@ =~= BootView::initial(config, topology@)) by {
                assert(boot@.pools =~= Seq::empty());
                assert(boot@.ports =~= Seq::empty());
            }
        }
        boot.create_pools()
    }
}

} // verus!
