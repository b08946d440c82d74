//! The runtime: the pools, the executors and the ports of one process, what
//! may be installed on them, and the run from the first port started to the
//! last port stopped.

use crate::core_map::CoreMap;
use crate::error::{CoreError, PortError, RuntimeError};
use crate::machine::{Action, Event, Phase, RuntimeView};
use crate::mempool_map::MempoolMap;
use crate::port::{after_stop, queue_of, Port, PortQueue, PortState, PortView};
use crate::settings::RuntimeSettings;
use crate::signal::UnixSignal;
use crate::topology::CoreId;
use vstd::prelude::*;

verus! {

/// The runtime of one process. `H` is the type of the signal handler.
pub struct Runtime<H> {
    config: RuntimeSettings,
    mempools: MempoolMap,
    core_map: CoreMap,
    ports: Vec<Port>,
    on_signal: Option<H>,
    phase: Phase,
    cursor: usize,
    failure: Option<RuntimeError>,
}

/// The ports as the contracts see them.
pub open spec fn port_views(ports: Seq<Port>) -> Seq<PortView> {
    ports.map_values(|p: Port| p@)
}

/// On a core, what each port has for it: the port's name and the queue, for
/// every port that has a queue on the core, in the order of the ports.
pub open spec fn queues_on(ports: Seq<PortView>, core: CoreId) -> Seq<(Seq<char>, PortQueue)>
    decreases ports.len(),
{
    if ports.len() == 0 {
        Seq::empty()
    } else {
        let before = queues_on(ports.drop_last(), core);
        match queue_of(ports.last().queues, core) {
            Some(q) => before.push((ports.last().name, q)),
            None => before,
        }
    }
}

/// Names and queues as the contracts see them.
pub open spec fn named(queues: Seq<(String, PortQueue)>) -> Seq<(Seq<char>, PortQueue)> {
    queues.map_values(|e: (String, PortQueue)| (e.0@, e.1))
}

impl<H> View for Runtime<H> {
    type V = RuntimeView;

    closed spec fn view(&self) -> RuntimeView {
        RuntimeView {
            config: self.config,
            mempools: self.mempools@,
            cores: self.core_map@,
            ports: port_views(self.ports@),
            phase: self.phase,
            cursor: self.cursor as nat,
            failure: self.failure,
        }
    }
}

impl<H: Fn(UnixSignal) -> bool> Runtime<H> {
    /// The handler that was set last, if one was set.
    pub closed spec fn handler(&self) -> Option<H> {
        self.on_signal
    }

    /// The handler can be asked about each of the signals.
    pub open spec fn heeds(handler: Option<H>) -> bool {
        match handler {
            Some(f) => forall|signal: UnixSignal| call_requires(f, (signal,)),
            None => true,
        }
    }

    /// `admitted` is a word that the handler may give on `signal`. Where no
    /// handler was set, every signal is admitted.
    pub open spec fn heard(handler: Option<H>, signal: UnixSignal, admitted: bool) -> bool {
        match handler {
            Some(f) => call_ensures(f, (signal,), admitted),
            None => admitted,
        }
    }

    /// What holds of a runtime at every step, and the handler can be asked
    /// about each signal.
    pub open spec fn wf(&self) -> bool {
        self@.wf() && Self::heeds(self.handler())
    }

    /// Puts together what assembly has built. No handler is set and the run
    /// has not begun.
    pub(crate) fn assemble(
        config: RuntimeSettings,
        mempools: MempoolMap,
        core_map: CoreMap,
        ports: Vec<Port>,
    ) -> (runtime: Runtime<H>)
        ensures
            runtime@ == (RuntimeView {
                config,
                mempools: mempools@,
                cores: core_map@,
                ports: port_views(ports@),
                phase: Phase::Idle,
                cursor: 0,
                failure: None,
            }),
            runtime.handler() is None,
    {
        Runtime {
            config,
            mempools,
            core_map,
            ports,
            on_signal: None,
            phase: Phase::Idle,
            cursor: 0,
            failure: None,
        }
    }

    /// The configuration that the runtime was assembled from.
    pub fn config(&self) -> (config: &RuntimeSettings)
        ensures
            *config == self@.config,
    {
        &self.config
    }

    /// The pools.
    pub fn mempools(&self) -> (mempools: &MempoolMap)
        ensures
            mempools@ == self@.mempools,
    {
        &self.mempools
    }

    /// The executors.
    pub fn core_map(&self) -> (core_map: &CoreMap)
        ensures
            core_map@ == self@.cores,
    {
        &self.core_map
    }

    /// The ports, in the order of the configuration.
    pub fn ports(&self) -> (ports: &Vec<Port>)
        ensures
            port_views(ports@) == self@.ports,
    {
        &self.ports
    }

    /// Where the runtime stands.
    pub fn phase(&self) -> (phase: Phase)
        ensures
            phase == self@.phase,
    {
        self.phase
    }

    /// Sets the Unix signal handler, in place of any that was set before.
    ///
    /// The handler is asked about each `SIGHUP`, `SIGINT` and `SIGTERM` that
    /// arrives while the runtime waits for one. `true` ends the run; `false`
    /// discards the signal and the runtime goes on waiting.
    pub fn set_on_signal(&mut self, f: H) -> (runtime: &mut Self)
        requires
            forall|signal: UnixSignal| call_requires(f, (signal,)),
        ensures
            runtime.handler() == Some(f),
            runtime@ == old(self)@,
            old(self).wf() ==> runtime.wf(),
            *final(self) == *final(runtime),
    {
        self.on_signal = Some(f);
        self
    }

    /// Asks the handler about `signal`.
    pub fn admits(&self, signal: UnixSignal) -> (admitted: bool)
        requires
            Self::heeds(self.handler()),
        ensures
            Self::heard(self.handler(), signal, admitted),
    {
        match &self.on_signal {
            Some(f) => f(signal),
            None => true,
        }
    }

    /// Installs a pipeline to a port: tells on which cores, and for which
    /// queue on each, the installer is to run, once each. The pipeline will
    /// run on all the cores assigned to the port.
    ///
    /// `port` is the logical name that identifies the port. Nothing is
    /// installed where no port has that name.
    pub fn add_pipeline_to_port(&self, port: &str) -> (installs: Result<
        Vec<(CoreId, PortQueue)>,
        RuntimeError,
    >)
        ensures
            match installs {
                Ok(queues) => exists|i: int|
                    {
                        &&& 0 <= i < self@.ports.len()
                        &&& (#[trigger] self@.ports[i]).name == port@
                        &&& queues@ == self@.ports[i].queues
                        &&& forall|j: int| 0 <= j < i ==> (#[trigger] self@.ports[j]).name != port@
                    },
                Err(e) => {
                    &&& e matches RuntimeError::Port(PortError::NotFound(name)) && name@ == port@
                    &&& forall|i: int|
                        0 <= i < self@.ports.len() ==> (#[trigger] self@.ports[i]).name != port@
                },
            },
    {
        let wanted = port.to_owned();
        let mut i: usize = 0;
        while i < self.ports.len()
            invariant
                i <= self.ports.len(),
                wanted@ == port@,
                forall|j: int| 0 <= j < i ==> (#[trigger] self@.ports[j]).name != port@,
            decreases self.ports.len() - i,
        {
            if self.ports[i].has_name(&wanted) {
                let found = self.ports[i].queues();
                let mut queues: Vec<(CoreId, PortQueue)> = Vec::new();
                let mut k: usize = 0;
                while k < found.len()
                    invariant
                        k <= found.len(),
                        queues@ == found@.take(k as int),
                    decreases found.len() - k,
                {
                    queues.push(found[k]);
                    proof {
                        assert(queues@ =~= found@.take(k + 1));
                    }
                    k += 1;
                }
                proof {
                    assert(found@.take(found.len() as int) =~= found@);
                    assert(self@.ports[i as int].name == port@);
                }
                return Ok(queues);
            }
            i += 1;
        }
        Err(RuntimeError::Port(PortError::NotFound(wanted)))
    }

    /// Installs a pipeline to a core: tells what the installer is to be
    /// handed when it runs, once, on that core. All the ports the core is
    /// assigned to will be available to the pipeline, each under its name.
    ///
    /// `core` is the logical id that identifies the core. Nothing is
    /// installed where the core is no worker, or is one without a queue.
    pub fn add_pipeline_to_core(&self, core: usize) -> (install: Result<
        Vec<(String, PortQueue)>,
        RuntimeError,
    >)
        ensures
            match install {
                Ok(queues) => {
                    &&& self@.cores.has(CoreId { raw: core })
                    &&& named(queues@) == queues_on(self@.ports, CoreId { raw: core })
                    &&& queues_on(self@.ports, CoreId { raw: core }).len() > 0
                },
                Err(e) => if self@.cores.has(CoreId { raw: core }) {
                    &&& e == RuntimeError::Core(CoreError::NotAssigned(core))
                    &&& queues_on(self@.ports, CoreId { raw: core }).len() == 0
                } else {
                    e == RuntimeError::Core(CoreError::NotFound(core))
                },
            },
    {
        let core_id = CoreId::new(core);
        match self.core_map.position(core_id) {
            None => {
                return Err(RuntimeError::Core(CoreError::NotFound(core)));
            },
            Some(at) => {
                proof {
                    assert(crate::core_map::worker_ids(self@.cores.workers)[at as int] == core_id);
                }
            },
        }
        let mut queues: Vec<(String, PortQueue)> = Vec::new();
        let mut i: usize = 0;
        proof {
            assert(self@.ports.take(0) =~= Seq::<PortView>::empty());
            assert(named(queues@) =~= Seq::<(Seq<char>, PortQueue)>::empty());
        }
        while i < self.ports.len()
            invariant
                i <= self.ports.len(),
                named(queues@) == queues_on(self@.ports.take(i as int), core_id),
            decreases self.ports.len() - i,
        {
            proof {
                assert(self@.ports.take(i + 1).drop_last() =~= self@.ports.take(i as int));
                assert(self@.ports.take(i + 1).last() == self.ports@[i as int]@);
            }
            if let Some(q) = self.ports[i].queue_on(core_id) {
                let ghost before = queues@;
                let name = self.ports[i].name().to_owned();
                queues.push((name, q));
                proof {
                    assert(named(queues@) =~= named(before).push((self.ports@[i as int]@.name, q)));
                }
            }
            i += 1;
        }
        proof {
            assert(self@.ports.take(self.ports.len() as int) =~= self@.ports);
        }
        if queues.len() == 0 {
            return Err(RuntimeError::Core(CoreError::NotAssigned(core)));
        }
        Ok(queues)
    }

    /// Installs a periodic task to a core: tells on which core's timer the
    /// task is to be scheduled.
    ///
    /// `core` is the logical id that identifies the core. Nothing is
    /// installed where the core is no worker.
    pub fn add_periodic_task_to_core(&self, core: usize) -> (install: Result<CoreId, RuntimeError>)
        ensures
            match install {
                Ok(id) => id == (CoreId { raw: core }) && self@.cores.has(id),
                Err(e) => e == RuntimeError::Core(CoreError::NotFound(core)) && !self@.cores.has(
                    CoreId { raw: core },
                ),
            },
    {
        let core_id = CoreId::new(core);
        match self.core_map.position(core_id) {
            None => Err(RuntimeError::Core(CoreError::NotFound(core))),
            Some(at) => {
                proof {
                    assert(crate::core_map::worker_ids(self@.cores.workers)[at as int] == core_id);
                }
                Ok(core_id)
            },
        }
    }

    /// Blocks the master until the timeout expires: the runtime now waits
    /// for the timer, and the environment is asked to run it.
    fn wait_for_timeout(&mut self, timeout: u64) -> (action: Action)
        ensures
            final(self)@ == old(self)@.at(Phase::AwaitingTimeout, 0),
            action == (Action::AwaitTimeout { seconds: timeout }),
            final(self).handler() == old(self).handler(),
    {
        self.phase = Phase::AwaitingTimeout;
        self.cursor = 0;
        Action::AwaitTimeout { seconds: timeout }
    }

    /// Chooses how the master waits, and begins the wait.
    fn wait(&mut self) -> (action: Action)
        ensures
            final(self)@ == old(self)@.wait().0,
            action == old(self)@.wait().1,
            final(self).handler() == old(self).handler(),
    {
        match self.config.duration {
            None | Some(0) => {
                self.phase = Phase::AwaitingSignal;
                self.cursor = 0;
                Action::AwaitSignal
            },
            Some(d) => self.wait_for_timeout(d),
        }
    }

    /// One turn of the wait for a signal to terminate: passes the signal
    /// that has arrived through the handler that is set. Where the handler
    /// admits it, or none is set, the wait is over and the shutdown begins;
    /// otherwise the signal is discarded, nothing changes, and the next
    /// signal is asked for. A runtime that does not wait for a signal does
    /// not ask the handler and ignores the signal.
    pub fn wait_for_signal(&mut self, signal: UnixSignal) -> (action: Action)
        requires
            old(self).wf(),
        ensures
            final(self).wf(),
            final(self).handler() == old(self).handler(),
            if old(self)@.phase == Phase::AwaitingSignal {
                exists|admitted: bool|
                    {
                        &&& Self::heard(old(self).handler(), signal, admitted)
                        &&& final(self)@ == #[trigger] old(self)@.react(
                            Event::Signal(signal),
                            admitted,
                        ).0
                        &&& action == old(self)@.react(Event::Signal(signal), admitted).1
                        &&& !admitted ==> final(self)@ == old(self)@ && action
                            == Action::AwaitSignal
                        &&& admitted ==> final(self)@.phase != Phase::AwaitingSignal
                    }
            } else {
                final(self)@ == old(self)@ && action == Action::Ignore
            },
    {
        let admitted = match self.phase {
            Phase::AwaitingSignal => self.admits(signal),
            _ => false,
        };
        self.react(Event::Signal(signal), admitted)
    }

    fn release_from(&mut self, c: usize) -> (action: Action)
        requires
            old(self)@.cores.wf(),
        ensures
            final(self)@ == old(self)@.release_from(c as int).0,
            action == old(self)@.release_from(c as int).1,
            final(self).handler() == old(self).handler(),
    {
        if c < self.core_map.len() {
            let core = self.core_map.worker(c).core;
            self.core_map.unpark(c);
            self.phase = Phase::Unparking;
            self.cursor = c;
            Action::Unpark { core }
        } else {
            self.wait()
        }
    }

    fn start_ports_from(&mut self, c: usize) -> (action: Action)
        requires
            old(self)@.cores.wf(),
        ensures
            final(self)@ == old(self)@.start_ports_from(c as int).0,
            action == old(self)@.start_ports_from(c as int).1,
            final(self).handler() == old(self).handler(),
    {
        if c < self.ports.len() {
            self.phase = Phase::StartingPorts;
            self.cursor = c;
            Action::StartPort { port: c }
        } else {
            self.release_from(0)
        }
    }

    fn stop_ports_from(&mut self, c: usize) -> (action: Action)
        ensures
            final(self)@ == old(self)@.stop_ports_from(c as int).0,
            action == old(self)@.stop_ports_from(c as int).1,
            final(self).handler() == old(self).handler(),
    {
        if c < self.ports.len() {
            let ghost before = self.ports@;
            self.ports[c].stop();
            self.phase = Phase::StoppingPorts;
            self.cursor = c;
            proof {
                assert(port_views(self.ports@) =~= port_views(before).update(
                    c as int,
                    before[c as int]@.with_state(after_stop(before[c as int]@.state)),
                ));
            }
            Action::StopPort { port: c }
        } else {
            self.phase = Phase::Finished;
            self.cursor = 0;
            match &self.failure {
                Some(e) => Action::Finish(Err(e.duplicate())),
                None => Action::Finish(Ok(())),
            }
        }
    }

    fn stop_workers_from(&mut self, c: usize) -> (action: Action)
        requires
            old(self)@.cores.wf(),
            c < old(self)@.cores.workers.len() ==> old(self)@.cores.workers[c as int].armed(),
        ensures
            final(self)@ == old(self)@.stop_workers_from(c as int).0,
            action == old(self)@.stop_workers_from(c as int).1,
            final(self).handler() == old(self).handler(),
    {
        if c < self.core_map.len() {
            let core = self.core_map.worker(c).core;
            let (shutdown, join) = self.core_map.disarm(c);
            self.phase = Phase::StoppingWorkers;
            self.cursor = c;
            Action::StopWorker { core, shutdown, join }
        } else {
            self.stop_ports_from(0)
        }
    }

    /// One step of the run, with the handler's word given: takes the event
    /// in, and returns what is to be done next.
    ///
    /// `Begin` starts the run: the ports are started one by one, then the
    /// workers are released one by one, then the master waits: for the
    /// timeout where the configuration gives a duration other than zero, for
    /// a signal otherwise. A signal that is not admitted changes nothing. At
    /// the timeout, at an admitted signal, where the wait fails, or where a
    /// port does not start, each worker is shut down and joined, then each
    /// port is stopped, and the run ends: well, or with the first error. A
    /// port that does not start is the last that was tried, and no worker is
    /// released after it. An event that answers nothing that was asked is
    /// ignored.
    pub fn react(&mut self, event: Event, admitted: bool) -> (action: Action)
        requires
            old(self).wf(),
        ensures
            final(self)@ == old(self)@.react(event, admitted).0,
            action == old(self)@.react(event, admitted).1,
            final(self).handler() == old(self).handler(),
            final(self).wf(),
    {
        proof {
            self@.lemma_react_keeps_wf(event, admitted);
        }
        let c = self.cursor;
        match (self.phase, event) {
            (Phase::Idle, Event::Begin) => self.start_ports_from(0),
            (Phase::StartingPorts, Event::Done) => {
                let ghost before = self.ports@;
                proof {
                    assert(self@.ports[c as int].state == PortState::Configured);
                }
                self.ports[c].start();
                proof {
                    assert(port_views(self.ports@) =~= port_views(before).update(
                        c as int,
                        before[c as int]@.with_state(PortState::Started),
                    ));
                }
                self.start_ports_from(c + 1)
            },
            (Phase::StartingPorts, Event::Failed) => {
                proof {
                    assert(self@.cores.workers.len() > 0 ==> self@.cores.workers[0].armed());
                }
                self.failure = Some(RuntimeError::Port(PortError::StartFailed(c)));
                self.stop_workers_from(0)
            },
            (Phase::Unparking, Event::Done) => self.release_from(c + 1),
            (Phase::AwaitingTimeout, Event::Elapsed) => {
                proof {
                    assert(self@.cores.workers.len() > 0 ==> self@.cores.workers[0].armed());
                }
                self.stop_workers_from(0)
            },
            (Phase::AwaitingTimeout, Event::Failed) | (Phase::AwaitingSignal, Event::Failed) => {
                proof {
                    assert(self@.cores.workers.len() > 0 ==> self@.cores.workers[0].armed());
                }
                self.failure = Some(RuntimeError::WaitFailed);
                self.stop_workers_from(0)
            },
            (Phase::AwaitingSignal, Event::Signal(_)) => {
                if admitted {
                    proof {
                        assert(self@.cores.workers.len() > 0 ==> self@.cores.workers[0].armed());
                    }
                    self.stop_workers_from(0)
                } else {
                    Action::AwaitSignal
                }
            },
            (Phase::StoppingWorkers, Event::Done) | (Phase::StoppingWorkers, Event::Failed) => {
                proof {
                    assert(c + 1 < self@.cores.workers.len() ==> self@.cores.workers[c + 1].armed());
                }
                self.stop_workers_from(c + 1)
            },
            (Phase::StoppingPorts, Event::Done) | (Phase::StoppingPorts, Event::Failed) => {
                self.stop_ports_from(c + 1)
            },
            _ => Action::Ignore,
        }
    }

    /// One step of the run: a signal goes through `wait_for_signal`, where
    /// the handler is asked; every other event is taken as `react` takes
    /// it.
    pub fn execute(&mut self, event: Event) -> (action: Action)
        requires
            old(self).wf(),
        ensures
            final(self).wf(),
            final(self).handler() == old(self).handler(),
            match (old(self)@.phase, event) {
                (Phase::AwaitingSignal, Event::Signal(signal)) => exists|admitted: bool|
                    {
                        &&& Self::heard(old(self).handler(), signal, admitted)
                        &&& final(self)@ == #[trigger] old(self)@.react(event, admitted).0
                        &&& action == old(self)@.react(event, admitted).1
                    },
                _ => final(self)@ == old(self)@.react(event, false).0 && action == old(
                    self,
                )@.react(event, false).1,
            },
    {
        match event {
            Event::Signal(signal) => self.wait_for_signal(signal),
            _ => self.react(event, false),
        }
    }
}

} // verus!
