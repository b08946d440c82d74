//! The run of a runtime, step by step: what is asked of the environment
//! next, and what each answer changes.

use crate::core_map::{worker_ids, CoreMapView, JoinHandle, ShutdownTrigger, WorkerExecutor};
use crate::distinct::distinct;
use crate::error::{PortError, RuntimeError};
use crate::mempool_map::{pool_sockets, Mempool};
use crate::port::{after_stop, planned_queues, PortState, PortView};
use crate::settings::{PortSettings, RuntimeSettings};
use crate::signal::UnixSignal;
use crate::topology::{CoreId, SocketId};
use vstd::prelude::*;

verus! {

/// Where a runtime stands.
#[derive(Clone, Copy, Debug, PartialEq, Eq, Structural)]
pub enum Phase {
    /// Assembled; the run has not begun.
    Idle,
    /// Ports are being started, one after the other.
    StartingPorts,
    /// Workers are being released, one after the other.
    Unparking,
    /// Everything runs; the master waits for the timeout.
    AwaitingTimeout,
    /// Everything runs; the master waits for a signal that the handler
    /// admits.
    AwaitingSignal,
    /// Workers are being shut down and joined, one after the other.
    StoppingWorkers,
    /// Ports are being stopped, one after the other.
    StoppingPorts,
    /// The run is over and everything is down.
    Finished,
}

/// What the environment reports.
#[derive(Clone, Copy, Debug, PartialEq, Eq, Structural)]
pub enum Event {
    /// The run is to begin.
    Begin,
    /// What was asked for has been done.
    Done,
    /// What was asked for could not be done.
    Failed,
    /// The timeout has elapsed.
    Elapsed,
    /// A signal has arrived.
    Signal(UnixSignal),
}

/// What the environment is asked to do next.
#[derive(Debug)]
pub enum Action {
    /// Start the device of the port at this position.
    StartPort { port: usize },
    /// Release the worker on this core.
    Unpark { core: CoreId },
    /// Block on the master's timer for this many seconds.
    AwaitTimeout { seconds: u64 },
    /// Block on the master's reactor until the next of the three signals.
    AwaitSignal,
    /// Fire the trigger, then join the thread.
    StopWorker { core: CoreId, shutdown: ShutdownTrigger, join: JoinHandle },
    /// Stop the device of the port at this position.
    StopPort { port: usize },
    /// Nothing more: the run ends with this result.
    Finish(Result<(), RuntimeError>),
    /// The event answered nothing that was asked; nothing has changed.
    Ignore,
}

/// A runtime as the contracts see it.
pub struct RuntimeView {
    pub config: RuntimeSettings,
    pub mempools: Seq<Mempool>,
    pub cores: CoreMapView,
    pub ports: Seq<PortView>,
    pub phase: Phase,
    /// In a phase that goes through the ports or the workers one by one: the
    /// position of the one that the pending action is about.
    pub cursor: nat,
    /// The first error of the run, kept until the run has wound down.
    pub failure: Option<RuntimeError>,
}

/// The socket of a core that has an executor, the master's included.
pub open spec fn site(cores: CoreMapView, core: CoreId) -> SocketId {
    if core == cores.master.core {
        cores.master.socket
    } else {
        cores.socket(core)
    }
}

/// The sockets of `list`, core by core.
pub open spec fn sites(cores: CoreMapView, list: Seq<CoreId>) -> Seq<SocketId> {
    list.map_values(|c: CoreId| site(cores, c))
}

/// The result that a run ends with.
pub open spec fn verdict(failure: Option<RuntimeError>) -> Result<(), RuntimeError> {
    match failure {
        Some(e) => Err(e),
        None => Ok(()),
    }
}

/// `port` is the port that `settings` asks for at position `index`,
/// whatever its state: it has the name and the device, every core assigned
/// to it has a worker, and each distinct one of them has one queue.
pub open spec fn port_matches(
    port: PortView,
    index: int,
    settings: PortSettings,
    cores: CoreMapView,
) -> bool {
    &&& port.name == settings.name@
    &&& port.device == settings.device@
    &&& port.queues == planned_queues(index as usize, distinct(settings.cores@), cores)
    &&& forall|k: int| 0 <= k < settings.cores@.len() ==> cores.has(#[trigger] settings.cores@[k])
}

impl RuntimeView {
    /// The port at position `i` is the one that the configuration asks for
    /// there.
    pub open spec fn port_as_configured(self, i: int) -> bool {
        port_matches(self.ports[i], i, self.config.ports@[i], self.cores)
    }

    /// What assembly has established and nothing changes afterwards: the
    /// workers are those of the configuration and the master is none of
    /// them, each socket in use has one pool, and each port has one queue
    /// for each core that it is assigned to.
    pub open spec fn assembled(self) -> bool {
        &&& self.cores.wf()
        &&& self.cores.master.core == self.config.master_core
        &&& worker_ids(self.cores.workers) == self.config.worker_cores()
        &&& pool_sockets(self.mempools) == distinct(sites(self.cores, self.config.cores_in_use()))
        &&& forall|i: int|
            0 <= i < self.mempools.len() ==> (#[trigger] self.mempools[i]).capacity
                == self.config.mempool.capacity && self.mempools[i].cache_size
                == self.config.mempool.cache_size
        &&& self.ports.len() == self.config.ports@.len()
        &&& self.ports.len() <= usize::MAX
        &&& forall|i: int| 0 <= i < self.ports.len() ==> #[trigger] self.port_as_configured(i)
        &&& forall|i: int, j: int|
            0 <= i < j < self.ports.len() ==> (#[trigger] self.ports[i]).name != (
            #[trigger] self.ports[j]).name
    }

    /// Ports before `upto` are in state `early`, the others in state `late`.
    pub open spec fn ports_split(self, upto: int, early: PortState, late: PortState) -> bool {
        forall|i: int|
            0 <= i < self.ports.len() ==> (#[trigger] self.ports[i]).state == if i < upto {
                early
            } else {
                late
            }
    }

    /// Workers before `upto` run, the others are parked.
    pub open spec fn released(self, upto: int) -> bool {
        forall|i: int|
            0 <= i < self.cores.workers.len() ==> (#[trigger] self.cores.workers[i]).parked == (i
                >= upto)
    }

    /// Workers before `upto` have given up trigger and handle, the others
    /// hold both.
    pub open spec fn disarmed(self, upto: int) -> bool {
        forall|i: int|
            0 <= i < self.cores.workers.len() ==> if i < upto {
                (#[trigger] self.cores.workers[i]).spent()
            } else {
                self.cores.workers[i].armed()
            }
    }

    /// The run turned back at a port that did not start.
    pub open spec fn cut_short(self) -> bool {
        self.failure matches Some(RuntimeError::Port(PortError::StartFailed(_)))
    }

    /// How many ports the run got started: all of them, or those before
    /// the one that did not start.
    pub open spec fn reach(self) -> int {
        match self.failure {
            Some(RuntimeError::Port(PortError::StartFailed(port))) => port as int,
            _ => self.ports.len() as int,
        }
    }

    /// How many workers the run released: all of them, or none where it
    /// turned back at a port.
    pub open spec fn freed(self) -> int {
        if self.cut_short() {
            0
        } else {
            self.cores.workers.len() as int
        }
    }

    /// The ports while the run winds down: those that were never started
    /// are as they were configured; of the others, those before `upto` are
    /// stopped and the rest still started.
    pub open spec fn ports_wound(self, upto: int) -> bool {
        forall|i: int|
            0 <= i < self.ports.len() ==> (#[trigger] self.ports[i]).state == if i
                >= self.reach() {
                PortState::Configured
            } else if i < upto {
                PortState::Stopped
            } else {
                PortState::Started
            }
    }

    /// A run ends well, or on the wait that could not be set up, or on the
    /// port that did not start.
    pub open spec fn ends_as_it_may(self) -> bool {
        ||| self.failure is None
        ||| self.failure == Some(RuntimeError::WaitFailed)
        ||| self.cut_short() && 0 <= self.reach() < self.ports.len()
    }

    /// What holds in each phase.
    pub open spec fn in_step(self) -> bool {
        let n = self.ports.len() as int;
        let m = self.cores.workers.len() as int;
        let c = self.cursor as int;
        match self.phase {
            Phase::Idle => {
                &&& self.ports_split(0, PortState::Started, PortState::Configured)
                &&& self.released(0)
                &&& self.disarmed(0)
                &&& self.failure is None
            },
            Phase::StartingPorts => {
                &&& c < n
                &&& self.ports_split(c, PortState::Started, PortState::Configured)
                &&& self.released(0)
                &&& self.disarmed(0)
                &&& self.failure is None
            },
            Phase::Unparking => {
                &&& c < m
                &&& self.ports_split(n, PortState::Started, PortState::Configured)
                &&& self.released(c + 1)
                &&& self.disarmed(0)
                &&& self.failure is None
            },
            Phase::AwaitingTimeout | Phase::AwaitingSignal => {
                &&& self.ports_split(n, PortState::Started, PortState::Configured)
                &&& self.released(m)
                &&& self.disarmed(0)
                &&& self.failure is None
            },
            Phase::StoppingWorkers => {
                &&& c < m
                &&& self.ports_wound(0)
                &&& self.released(self.freed())
                &&& self.disarmed(c + 1)
                &&& self.ends_as_it_may()
            },
            Phase::StoppingPorts => {
                &&& c < n
                &&& self.ports_wound(c + 1)
                &&& self.released(self.freed())
                &&& self.disarmed(m)
                &&& self.ends_as_it_may()
            },
            Phase::Finished => {
                &&& self.ports_wound(n)
                &&& self.released(self.freed())
                &&& self.disarmed(m)
                &&& self.ends_as_it_may()
            },
        }
    }

    /// What holds of a runtime at every step.
    pub open spec fn wf(self) -> bool {
        self.assembled() && self.in_step()
    }

    /// An upper bound on the answers that the run still needs, not counting
    /// signals that the handler does not admit.
    pub open spec fn steps_left(self) -> int {
        let n = self.ports.len() as int;
        let m = self.cores.workers.len() as int;
        let c = self.cursor as int;
        match self.phase {
            Phase::Idle => 2 * n + 2 * m + 2,
            Phase::StartingPorts => (n - c) + 2 * m + n + 1,
            Phase::Unparking => (m - c) + m + n + 1,
            Phase::AwaitingTimeout | Phase::AwaitingSignal => m + n + 1,
            Phase::StoppingWorkers => (m - c) + n,
            Phase::StoppingPorts => n - c,
            Phase::Finished => 0,
        }
    }

    /// The runtime with the port at position `i` in state `state`.
    pub open spec fn with_port(self, i: int, state: PortState) -> RuntimeView {
        RuntimeView { ports: self.ports.update(i, self.ports[i].with_state(state)), ..self }
    }

    /// The runtime with the worker at position `i` replaced.
    pub open spec fn with_worker(self, i: int, worker: WorkerExecutor) -> RuntimeView {
        RuntimeView {
            cores: CoreMapView { workers: self.cores.workers.update(i, worker), ..self.cores },
            ..self
        }
    }

    /// The runtime in another phase.
    pub open spec fn at(self, phase: Phase, cursor: int) -> RuntimeView {
        RuntimeView { phase, cursor: cursor as nat, ..self }
    }

    /// Goes on starting ports from position `c`; once all are started, the
    /// workers are released.
    pub open spec fn start_ports_from(self, c: int) -> (RuntimeView, Action) {
        if c < self.ports.len() {
            (self.at(Phase::StartingPorts, c), Action::StartPort { port: c as usize })
        } else {
            self.release_from(0)
        }
    }

    /// Goes on releasing workers from position `c`; once all run, the wait
    /// begins.
    pub open spec fn release_from(self, c: int) -> (RuntimeView, Action) {
        if c < self.cores.workers.len() {
            let worker = self.cores.workers[c];
            (
                self.with_worker(c, worker.unparked()).at(Phase::Unparking, c),
                Action::Unpark { core: worker.core },
            )
        } else {
            self.wait()
        }
    }

    /// Chooses how the master waits: for the timeout where the configuration
    /// gives a duration other than zero, for a signal otherwise.
    pub open spec fn wait(self) -> (RuntimeView, Action) {
        match self.config.duration {
            Some(seconds) if seconds != 0 => (
                self.at(Phase::AwaitingTimeout, 0),
                Action::AwaitTimeout { seconds },
            ),
            _ => (self.at(Phase::AwaitingSignal, 0), Action::AwaitSignal),
        }
    }

    /// Goes on shutting workers down from position `c`; once all are joined,
    /// the ports are stopped.
    pub open spec fn stop_workers_from(self, c: int) -> (RuntimeView, Action) {
        if c < self.cores.workers.len() {
            let worker = self.cores.workers[c];
            (
                self.with_worker(c, worker.disarmed()).at(Phase::StoppingWorkers, c),
                Action::StopWorker {
                    core: worker.core,
                    shutdown: ShutdownTrigger::of(worker.core),
                    join: JoinHandle::of(worker.core),
                },
            )
        } else {
            self.stop_ports_from(0)
        }
    }

    /// Goes on stopping ports from position `c`; once all are stopped, the
    /// run ends with the first error, or well if there was none.
    pub open spec fn stop_ports_from(self, c: int) -> (RuntimeView, Action) {
        if c < self.ports.len() {
            (
                self.with_port(c, after_stop(self.ports[c].state)).at(Phase::StoppingPorts, c),
                Action::StopPort { port: c as usize },
            )
        } else {
            (self.at(Phase::Finished, 0), Action::Finish(verdict(self.failure)))
        }
    }

    /// The runtime with `error` noted as the error of the run.
    pub open spec fn failing(self, error: RuntimeError) -> RuntimeView {
        RuntimeView { failure: Some(error), ..self }
    }

    /// The runtime after `signals` have arrived one after the other, the
    /// handler's word on each being the one at its place in `words`.
    pub open spec fn after_signals(self, signals: Seq<UnixSignal>, words: Seq<bool>) -> RuntimeView
        decreases signals.len(),
    {
        if signals.len() == 0 {
            self
        } else {
            self.after_signals(signals.drop_last(), words.drop_last()).react(
                Event::Signal(signals.last()),
                words.last(),
            ).0
        }
    }

    /// One step of the run: the state that `event` leaves the runtime in, and
    /// what is asked next. `admitted` is the handler's word on the signal
    /// where the event is one; otherwise it is not looked at.
    pub open spec fn react(self, event: Event, admitted: bool) -> (RuntimeView, Action) {
        let c = self.cursor as int;
        match (self.phase, event) {
            (Phase::Idle, Event::Begin) => self.start_ports_from(0),
            (Phase::StartingPorts, Event::Done) => self.with_port(
                c,
                PortState::Started,
            ).start_ports_from(c + 1),
            (Phase::StartingPorts, Event::Failed) => self.failing(
                RuntimeError::Port(PortError::StartFailed(c as usize)),
            ).stop_workers_from(0),
            (Phase::Unparking, Event::Done) => self.release_from(c + 1),
            (Phase::AwaitingTimeout, Event::Elapsed) => self.stop_workers_from(0),
            (Phase::AwaitingTimeout, Event::Failed) => self.failing(
                RuntimeError::WaitFailed,
            ).stop_workers_from(0),
            (Phase::AwaitingSignal, Event::Signal(_)) => if admitted {
                self.stop_workers_from(0)
            } else {
                (self, Action::AwaitSignal)
            },
            (Phase::AwaitingSignal, Event::Failed) => self.failing(
                RuntimeError::WaitFailed,
            ).stop_workers_from(0),
            (Phase::StoppingWorkers, Event::Done) | (Phase::StoppingWorkers, Event::Failed) => {
                self.stop_workers_from(c + 1)
            },
            (Phase::StoppingPorts, Event::Done) | (Phase::StoppingPorts, Event::Failed) => {
                self.stop_ports_from(c + 1)
            },
            _ => (self, Action::Ignore),
        }
    }
}

/// Two core maps that seat the same cores on the same sockets give every
/// core the same socket and every port the same queues.
pub proof fn lemma_same_seats(before: CoreMapView, after: CoreMapView)
    requires
        before.master == after.master,
        before.workers.len() == after.workers.len(),
        forall|i: int|
            0 <= i < before.workers.len() ==> (#[trigger] after.workers[i]).core
                == before.workers[i].core && after.workers[i].socket == before.workers[i].socket,
    ensures
        worker_ids(after.workers) == worker_ids(before.workers),
        forall|c: CoreId| #[trigger] after.has(c) == before.has(c),
        forall|c: CoreId| #[trigger] after.socket(c) == before.socket(c),
        forall|c: CoreId| #[trigger] site(after, c) == site(before, c),
        forall|list: Seq<CoreId>| #[trigger] sites(after, list) == sites(before, list),
        forall|index: usize, list: Seq<CoreId>| #[trigger]
            planned_queues(index, list, after) == planned_queues(index, list, before),
{
    assert(worker_ids(after.workers) =~= worker_ids(before.workers));
    assert forall|c: CoreId| #[trigger] after.socket(c) == before.socket(c) by {
        let k = worker_ids(before.workers).index_of(c);
        if 0 <= k < before.workers.len() {
            assert(after.workers[k].socket == before.workers[k].socket);
        }
    }
    assert forall|list: Seq<CoreId>| #[trigger] sites(after, list) == sites(before, list) by {
        assert(sites(after, list) =~= sites(before, list));
    }
    assert forall|index: usize, list: Seq<CoreId>| #[trigger]
        planned_queues(index, list, after) == planned_queues(index, list, before) by {
        assert(planned_queues(index, list, after) =~= planned_queues(index, list, before));
    }
}

impl RuntimeView {
    /// A change of phase changes nothing that assembly established.
    pub proof fn lemma_at_assembled(self, phase: Phase, cursor: int)
        requires
            self.assembled(),
        ensures
            self.at(phase, cursor).assembled(),
    {
        let next = self.at(phase, cursor);
        assert forall|i: int| 0 <= i < next.ports.len() implies #[trigger] next.port_as_configured(
            i,
        ) by {
            assert(self.port_as_configured(i));
        }
    }

    /// Nor does noting an error.
    pub proof fn lemma_failing_assembled(self, error: RuntimeError)
        requires
            self.assembled(),
        ensures
            self.failing(error).assembled(),
    {
        let next = self.failing(error);
        assert forall|i: int| 0 <= i < next.ports.len() implies #[trigger] next.port_as_configured(
            i,
        ) by {
            assert(self.port_as_configured(i));
        }
    }

    /// A port's state is no part of what assembly established.
    pub proof fn lemma_with_port_assembled(self, i: int, state: PortState)
        requires
            self.assembled(),
            0 <= i < self.ports.len(),
        ensures
            self.with_port(i, state).assembled(),
    {
        let next = self.with_port(i, state);
        assert forall|k: int| 0 <= k < next.ports.len() implies #[trigger] next.port_as_configured(
            k,
        ) by {
            assert(self.port_as_configured(k));
        }
        assert forall|a: int, b: int| 0 <= a < b < next.ports.len() implies (
        #[trigger] next.ports[a]).name != (#[trigger] next.ports[b]).name by {
            assert(self.ports[a].name != self.ports[b].name);
        }
    }

    /// Neither is whether a worker is parked or holds its trigger.
    pub proof fn lemma_with_worker_assembled(self, i: int, worker: WorkerExecutor)
        requires
            self.assembled(),
            0 <= i < self.cores.workers.len(),
            worker.core == self.cores.workers[i].core,
            worker.socket == self.cores.workers[i].socket,
            worker.wf(),
        ensures
            self.with_worker(i, worker).assembled(),
    {
        let next = self.with_worker(i, worker);
        lemma_same_seats(self.cores, next.cores);
        assert forall|k: int| 0 <= k < next.cores.workers.len() implies (
        #[trigger] next.cores.workers[k]).wf() by {
            assert(self.cores.workers[k].wf());
        }
        assert forall|k: int| 0 <= k < next.ports.len() implies #[trigger] next.port_as_configured(
            k,
        ) by {
            assert(self.port_as_configured(k));
        }
    }

    proof fn lemma_stop_ports_from(self, c: int)
        requires
            self.assembled(),
            0 <= c <= self.ports.len(),
            self.ports_wound(c),
            self.released(self.freed()),
            self.disarmed(self.cores.workers.len() as int),
            self.ends_as_it_may(),
        ensures
            self.stop_ports_from(c).0.wf(),
    {
        if c < self.ports.len() {
            let stopped = self.with_port(c, after_stop(self.ports[c].state));
            self.lemma_with_port_assembled(c, after_stop(self.ports[c].state));
            stopped.lemma_at_assembled(Phase::StoppingPorts, c);
            let next = stopped.at(Phase::StoppingPorts, c);
            assert(next.ports_wound(c + 1)) by {
                assert forall|i: int| 0 <= i < next.ports.len() implies (
                #[trigger] next.ports[i]).state == if i >= next.reach() {
                    PortState::Configured
                } else if i < c + 1 {
                    PortState::Stopped
                } else {
                    PortState::Started
                } by {
                    assert(self.ports[i].state == if i >= self.reach() {
                        PortState::Configured
                    } else if i < c {
                        PortState::Stopped
                    } else {
                        PortState::Started
                    });
                }
            }
            assert(next.released(next.freed())) by {
                assert forall|i: int| 0 <= i < next.cores.workers.len() implies (
                #[trigger] next.cores.workers[i]).parked == (i >= next.freed()) by {
                    assert(self.cores.workers[i].parked == (i >= self.freed()));
                }
            }
        } else {
            self.lemma_at_assembled(Phase::Finished, 0);
        }
    }

    proof fn lemma_stop_workers_from(self, c: int)
        requires
            self.assembled(),
            0 <= c <= self.cores.workers.len(),
            self.ports_wound(0),
            self.released(self.freed()),
            self.disarmed(c),
            self.ends_as_it_may(),
        ensures
            self.stop_workers_from(c).0.wf(),
    {
        if c < self.cores.workers.len() {
            let worker = self.cores.workers[c];
            assert(worker.armed());
            let taken = self.with_worker(c, worker.disarmed());
            self.lemma_with_worker_assembled(c, worker.disarmed());
            taken.lemma_at_assembled(Phase::StoppingWorkers, c);
            let next = taken.at(Phase::StoppingWorkers, c);
            assert(next.disarmed(c + 1)) by {
                assert forall|i: int| 0 <= i < next.cores.workers.len() implies if i < c + 1 {
                    (#[trigger] next.cores.workers[i]).spent()
                } else {
                    next.cores.workers[i].armed()
                } by {
                    if i != c {
                        assert(if i < c {
                            self.cores.workers[i].spent()
                        } else {
                            self.cores.workers[i].armed()
                        });
                    }
                }
            }
            assert(next.released(next.freed())) by {
                assert forall|i: int| 0 <= i < next.cores.workers.len() implies (
                #[trigger] next.cores.workers[i]).parked == (i >= next.freed()) by {
                    assert(self.cores.workers[i].parked == (i >= self.freed()));
                }
            }
            assert(next.ports_wound(0)) by {
                assert forall|i: int| 0 <= i < next.ports.len() implies (
                #[trigger] next.ports[i]).state == if i >= next.reach() {
                    PortState::Configured
                } else {
                    PortState::Started
                } by {
                    assert(self.ports[i].state == if i >= self.reach() {
                        PortState::Configured
                    } else {
                        PortState::Started
                    });
                }
            }
        } else {
            self.lemma_stop_ports_from(0);
        }
    }

    proof fn lemma_wait(self)
        requires
            self.assembled(),
            self.ports_split(self.ports.len() as int, PortState::Started, PortState::Configured),
            self.released(self.cores.workers.len() as int),
            self.disarmed(0),
            self.failure is None,
        ensures
            self.wait().0.wf(),
    {
        self.lemma_at_assembled(Phase::AwaitingTimeout, 0);
        self.lemma_at_assembled(Phase::AwaitingSignal, 0);
    }

    proof fn lemma_release_from(self, c: int)
        requires
            self.assembled(),
            0 <= c <= self.cores.workers.len(),
            self.ports_split(self.ports.len() as int, PortState::Started, PortState::Configured),
            self.released(c),
            self.disarmed(0),
            self.failure is None,
        ensures
            self.release_from(c).0.wf(),
    {
        if c < self.cores.workers.len() {
            let worker = self.cores.workers[c];
            assert(worker.armed());
            let freed = self.with_worker(c, worker.unparked());
            self.lemma_with_worker_assembled(c, worker.unparked());
            freed.lemma_at_assembled(Phase::Unparking, c);
            let next = freed.at(Phase::Unparking, c);
            assert(next.released(c + 1)) by {
                assert forall|i: int| 0 <= i < next.cores.workers.len() implies (
                #[trigger] next.cores.workers[i]).parked == (i >= c + 1) by {
                    if i != c {
                        assert(self.cores.workers[i].parked == (i >= c));
                    }
                }
            }
            assert(next.disarmed(0)) by {
                assert forall|i: int| 0 <= i < next.cores.workers.len() implies (
                #[trigger] next.cores.workers[i]).armed() by {
                    assert(self.cores.workers[i].armed());
                }
            }
        } else {
            self.lemma_wait();
        }
    }

    proof fn lemma_start_ports_from(self, c: int)
        requires
            self.assembled(),
            0 <= c <= self.ports.len(),
            self.ports_split(c, PortState::Started, PortState::Configured),
            self.released(0),
            self.disarmed(0),
            self.failure is None,
        ensures
            self.start_ports_from(c).0.wf(),
    {
        if c < self.ports.len() {
            self.lemma_at_assembled(Phase::StartingPorts, c);
        } else {
            self.lemma_release_from(0);
        }
    }

    /// A runtime that waits, with or without the failure of the wait noted,
    /// is one whose ports are all started and whose workers all run.
    proof fn lemma_running(self, failure: Option<RuntimeError>)
        requires
            self.ports_split(self.ports.len() as int, PortState::Started, PortState::Configured),
            self.released(self.cores.workers.len() as int),
            self.disarmed(0),
            failure is None || failure == Some(RuntimeError::WaitFailed),
        ensures
            ({
                let noted = RuntimeView { failure, ..self };
                &&& noted.ports_wound(0)
                &&& noted.released(noted.freed())
                &&& noted.disarmed(0)
                &&& noted.ends_as_it_may()
            }),
    {
        let noted = RuntimeView { failure, ..self };
        assert forall|i: int| 0 <= i < noted.ports.len() implies (#[trigger] noted.ports[i]).state
            == PortState::Started by {
            assert(self.ports[i].state == PortState::Started);
        }
        assert forall|i: int| 0 <= i < noted.cores.workers.len() implies (
        #[trigger] noted.cores.workers[i]).parked == (i >= noted.freed()) by {
            assert(self.cores.workers[i].parked == (i >= self.cores.workers.len()));
        }
        assert forall|i: int| 0 <= i < noted.cores.workers.len() implies (
        #[trigger] noted.cores.workers[i]).armed() by {
            assert(self.cores.workers[i].armed());
        }
    }

    /// Every step leaves a well-formed runtime well-formed.
    pub proof fn lemma_react_keeps_wf(self, event: Event, admitted: bool)
        requires
            self.wf(),
        ensures
            self.react(event, admitted).0.wf(),
    {
        let c = self.cursor as int;
        let m = self.cores.workers.len() as int;
        match (self.phase, event) {
            (Phase::Idle, Event::Begin) => {
                self.lemma_start_ports_from(0);
            },
            (Phase::StartingPorts, Event::Done) => {
                let started = self.with_port(c, PortState::Started);
                self.lemma_with_port_assembled(c, PortState::Started);
                assert(started.ports_split(c + 1, PortState::Started, PortState::Configured)) by {
                    assert forall|i: int| 0 <= i < started.ports.len() implies (
                    #[trigger] started.ports[i]).state == if i < c + 1 {
                        PortState::Started
                    } else {
                        PortState::Configured
                    } by {
                        assert(self.ports[i].state == if i < c {
                            PortState::Started
                        } else {
                            PortState::Configured
                        });
                    }
                }
                started.lemma_start_ports_from(c + 1);
            },
            (Phase::StartingPorts, Event::Failed) => {
                let error = RuntimeError::Port(PortError::StartFailed(c as usize));
                let noted = self.failing(error);
                self.lemma_failing_assembled(error);
                assert(noted.reach() == c);
                assert(noted.ports_wound(0)) by {
                    assert forall|i: int| 0 <= i < noted.ports.len() implies (
                    #[trigger] noted.ports[i]).state == if i >= noted.reach() {
                        PortState::Configured
                    } else {
                        PortState::Started
                    } by {
                        assert(self.ports[i].state == if i < c {
                            PortState::Started
                        } else {
                            PortState::Configured
                        });
                    }
                }
                assert(noted.released(noted.freed())) by {
                    assert forall|i: int| 0 <= i < noted.cores.workers.len() implies (
                    #[trigger] noted.cores.workers[i]).parked == (i >= noted.freed()) by {
                        assert(self.cores.workers[i].parked == (i >= 0));
                    }
                }
                assert(noted.disarmed(0)) by {
                    assert forall|i: int| 0 <= i < noted.cores.workers.len() implies (
                    #[trigger] noted.cores.workers[i]).armed() by {
                        assert(self.cores.workers[i].armed());
                    }
                }
                noted.lemma_stop_workers_from(0);
            },
            (Phase::Unparking, Event::Done) => {
                self.lemma_release_from(c + 1);
            },
            (Phase::AwaitingTimeout, Event::Elapsed) => {
                self.lemma_running(None);
                self.lemma_stop_workers_from(0);
            },
            (Phase::AwaitingTimeout, Event::Failed) | (Phase::AwaitingSignal, Event::Failed) => {
                self.lemma_failing_assembled(RuntimeError::WaitFailed);
                self.lemma_running(Some(RuntimeError::WaitFailed));
                self.failing(RuntimeError::WaitFailed).lemma_stop_workers_from(0);
            },
            (Phase::AwaitingSignal, Event::Signal(_)) => {
                if admitted {
                    self.lemma_running(None);
                    self.lemma_stop_workers_from(0);
                }
            },
            (Phase::StoppingWorkers, Event::Done) | (Phase::StoppingWorkers, Event::Failed) => {
                self.lemma_stop_workers_from(c + 1);
            },
            (Phase::StoppingPorts, Event::Done) | (Phase::StoppingPorts, Event::Failed) => {
                self.lemma_stop_ports_from(c + 1);
            },
            _ => {},
        }
    }
}

} // verus!
