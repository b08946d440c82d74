//! Ports and their per-core queues.

use crate::core_map::{CoreMap, CoreMapView};
use crate::distinct::{distinct, lemma_distinct};
use crate::error::{PortError, RuntimeError};
use crate::mempool_map::{pool_sockets, MempoolBorrow};
use crate::settings::PortSettings;
use crate::topology::{absorb_cores, CoreId, SocketId};
use vstd::prelude::*;

verus! {

/// Where a port stands in its life. Packets flow only while it is started.
#[derive(Clone, Copy, Debug, PartialEq, Eq, Structural)]
pub enum PortState {
    Configured,
    Started,
    Stopped,
}

/// A receive/transmit queue pair: the port it belongs to, by the port's
/// position in the runtime, its number on that port, and the socket whose
/// pool feeds it.
#[derive(Clone, Copy, Debug, PartialEq, Eq, Structural)]
pub struct PortQueue {
    pub port: usize,
    pub queue: usize,
    pub socket: SocketId,
}

/// The range of descriptor counts that a device advertises for its receive
/// and its transmit queues.
#[derive(Clone, Copy, Debug, PartialEq, Eq, Structural)]
pub struct DeviceInfo {
    pub rx_desc_min: usize,
    pub rx_desc_max: usize,
    pub tx_desc_min: usize,
    pub tx_desc_max: usize,
}

impl DeviceInfo {
    /// Both counts lie within what the device advertises.
    pub open spec fn admits(self, rxd: usize, txd: usize) -> bool {
        &&& self.rx_desc_min <= rxd <= self.rx_desc_max
        &&& self.tx_desc_min <= txd <= self.tx_desc_max
    }
}

/// A configured network interface: a logical name, the device behind it, and
/// one queue for each core that it is assigned to.
pub struct Port {
    name: String,
    device: String,
    queues: Vec<(CoreId, PortQueue)>,
    state: PortState,
}

/// A port as the contracts see it.
pub struct PortView {
    pub name: Seq<char>,
    pub device: Seq<char>,
    pub queues: Seq<(CoreId, PortQueue)>,
    pub state: PortState,
}

/// The cores that `queues` belong to, queue by queue.
pub open spec fn queue_cores(queues: Seq<(CoreId, PortQueue)>) -> Seq<CoreId> {
    queues.map_values(|q: (CoreId, PortQueue)| q.0)
}

/// The queue that `core` has among `queues`: that of the first entry for it.
pub open spec fn queue_of(queues: Seq<(CoreId, PortQueue)>, core: CoreId) -> Option<PortQueue>
    decreases queues.len(),
{
    if queues.len() == 0 {
        None
    } else if queues[0].0 == core {
        Some(queues[0].1)
    } else {
        queue_of(queues.drop_first(), core)
    }
}

/// The state that stopping leaves a port in: a started port is stopped, any
/// other stays as it is.
pub open spec fn after_stop(state: PortState) -> PortState {
    if state == PortState::Started {
        PortState::Stopped
    } else {
        state
    }
}

/// The queues of the port at position `index` for the given cores: the j-th
/// core gets queue j, fed from the pool on the socket of that core's worker.
pub open spec fn planned_queues(index: usize, cores: Seq<CoreId>, workers: CoreMapView) -> Seq<
    (CoreId, PortQueue),
> {
    Seq::new(
        cores.len(),
        |j: int|
            (cores[j], PortQueue { port: index, queue: j as usize, socket: workers.socket(cores[j]) }),
    )
}

/// The first of `cores` that has no worker.
pub open spec fn first_unknown(cores: Seq<CoreId>, workers: CoreMapView) -> Option<CoreId>
    decreases cores.len(),
{
    if cores.len() == 0 {
        None
    } else if !workers.has(cores[0]) {
        Some(cores[0])
    } else {
        first_unknown(cores.drop_first(), workers)
    }
}

/// The socket of the first of `cores` whose worker sits on a socket without
/// a pool.
pub open spec fn first_unpooled(
    cores: Seq<CoreId>,
    workers: CoreMapView,
    pools: Seq<SocketId>,
) -> Option<SocketId>
    decreases cores.len(),
{
    if cores.len() == 0 {
        None
    } else if !pools.contains(workers.socket(cores[0])) {
        Some(workers.socket(cores[0]))
    } else {
        first_unpooled(cores.drop_first(), workers, pools)
    }
}

/// The port at position `index` of the configuration as it is laid out, or
/// why it cannot be: a core is assigned that has no worker; else a
/// descriptor count lies outside what the device advertises; else a queue's
/// socket has no pool. Each distinct assigned core gets one queue.
pub open spec fn planned(
    index: usize,
    settings: PortSettings,
    info: DeviceInfo,
    workers: CoreMapView,
    pools: Seq<SocketId>,
) -> Result<PortView, RuntimeError> {
    let cores = distinct(settings.cores@);
    match first_unknown(cores, workers) {
        Some(core) => Err(RuntimeError::Port(PortError::CoreUnknown(index, core))),
        None => if !info.admits(settings.rxd, settings.txd) {
            Err(RuntimeError::Port(PortError::InvalidDescriptorCount(index)))
        } else {
            match first_unpooled(cores, workers, pools) {
                Some(socket) => Err(RuntimeError::SocketNotFound(socket)),
                None => Ok(
                    PortView {
                        name: settings.name@,
                        device: settings.device@,
                        queues: planned_queues(index, cores, workers),
                        state: PortState::Configured,
                    },
                ),
            }
        },
    }
}

/// Where no core is unknown, each has a worker.
pub proof fn lemma_all_known(cores: Seq<CoreId>, workers: CoreMapView)
    requires
        first_unknown(cores, workers) is None,
    ensures
        forall|k: int| 0 <= k < cores.len() ==> workers.has(#[trigger] cores[k]),
    decreases cores.len(),
{
    if cores.len() > 0 {
        lemma_all_known(cores.drop_first(), workers);
        assert forall|k: int| 0 <= k < cores.len() implies workers.has(#[trigger] cores[k]) by {
            if k > 0 {
                assert(cores.drop_first()[k - 1] == cores[k]);
            }
        }
    }
}

impl PortView {
    /// No core has two queues on the port.
    pub open spec fn wf(self) -> bool {
        queue_cores(self.queues).no_duplicates()
    }

    /// The port in another state.
    pub open spec fn with_state(self, state: PortState) -> PortView {
        PortView { state, ..self }
    }
}

impl View for Port {
    type V = PortView;

    closed spec fn view(&self) -> PortView {
        PortView {
            name: self.name@,
            device: self.device@,
            queues: self.queues@,
            state: self.state,
        }
    }
}

impl Port {
    /// No core has two queues on the port.
    pub open spec fn wf(&self) -> bool {
        self@.wf()
    }

    /// Lays out the port at position `index` of the configuration: checks the
    /// assignment against the workers, the descriptor counts against what the
    /// device advertises and the sockets against the pools, in that order,
    /// and gives each distinct assigned core one queue. The port comes out
    /// configured and not started.
    pub fn plan(
        index: usize,
        settings: &PortSettings,
        info: DeviceInfo,
        workers: &CoreMap,
        mempools: &mut MempoolBorrow<'_>,
    ) -> (port: Result<Port, RuntimeError>)
        requires
            workers.wf(),
        ensures
            final(mempools)@ == old(mempools)@,
            match port {
                Ok(p) => p.wf() && planned(
                    index,
                    *settings,
                    info,
                    workers@,
                    pool_sockets(old(mempools)@),
                ) == Ok::<PortView, RuntimeError>(p@),
                Err(e) => planned(
                    index,
                    *settings,
                    info,
                    workers@,
                    pool_sockets(old(mempools)@),
                ) == Err::<PortView, RuntimeError>(e),
            },
    {
        let mut cores: Vec<CoreId> = Vec::new();
        absorb_cores(&mut cores, &settings.cores);
        proof {
            lemma_distinct(settings.cores@);
            assert(cores@.skip(0) =~= cores@);
        }
        let mut k: usize = 0;
        while k < cores.len()
            invariant
                k <= cores.len(),
                workers.wf(),
                cores@ == distinct(settings.cores@),
                first_unknown(cores@, workers@) == first_unknown(cores@.skip(k as int), workers@),
            decreases cores.len() - k,
        {
            proof {
                assert(cores@.skip(k as int).drop_first() =~= cores@.skip(k + 1));
            }
            if workers.socket_of(cores[k]).is_none() {
                return Err(RuntimeError::Port(PortError::CoreUnknown(index, cores[k])));
            }
            k += 1;
        }
        if !(info.rx_desc_min <= settings.rxd && settings.rxd <= info.rx_desc_max
            && info.tx_desc_min <= settings.txd && settings.txd <= info.tx_desc_max) {
            return Err(RuntimeError::Port(PortError::InvalidDescriptorCount(index)));
        }
        let mut queues: Vec<(CoreId, PortQueue)> = Vec::new();
        let mut j: usize = 0;
        proof {
            lemma_all_known(cores@, workers@);
        }
        while j < cores.len()
            invariant
                j <= cores.len(),
                workers.wf(),
                cores@ == distinct(settings.cores@),
                first_unknown(cores@, workers@) is None,
                info.admits(settings.rxd, settings.txd),
                forall|i: int| 0 <= i < cores@.len() ==> workers@.has(#[trigger] cores@[i]),
                first_unpooled(cores@, workers@, pool_sockets(mempools@)) == first_unpooled(
                    cores@.skip(j as int),
                    workers@,
                    pool_sockets(mempools@),
                ),
                queues@.len() == j,
                forall|i: int|
                    0 <= i < j ==> #[trigger] queues@[i] == planned_queues(index, cores@, workers@)[i],
            decreases cores.len() - j,
        {
            let core = cores[j];
            proof {
                assert(workers@.has(cores@[j as int]));
                assert(cores@.skip(j as int).drop_first() =~= cores@.skip(j + 1));
            }
            let socket = workers.socket_of(core).unwrap();
            if !mempools.has(socket) {
                return Err(RuntimeError::SocketNotFound(socket));
            }
            queues.push((core, PortQueue { port: index, queue: j, socket }));
            j += 1;
        }
        proof {
            assert(queues@ =~= planned_queues(index, cores@, workers@));
            assert(queue_cores(queues@) =~= cores@);
        }
        Ok(
            Port {
                name: settings.name.clone(),
                device: settings.device.clone(),
                queues,
                state: PortState::Configured,
            },
        )
    }

    /// The logical name.
    pub fn name(&self) -> (name: &str)
        ensures
            name@ == self@.name,
    {
        self.name.as_str()
    }

    /// Whether the port goes by `name`.
    pub fn has_name(&self, name: &String) -> (same: bool)
        ensures
            same == (self@.name == name@),
    {
        self.name == *name
    }

    /// The device behind the port.
    pub fn device(&self) -> (device: &str)
        ensures
            device@ == self@.device,
    {
        self.device.as_str()
    }

    /// The queues, each with the core it belongs to, in the order in which
    /// the cores were assigned.
    pub fn queues(&self) -> (queues: &Vec<(CoreId, PortQueue)>)
        ensures
            queues@ == self@.queues,
    {
        &self.queues
    }

    /// Where the port stands in its life.
    pub fn state(&self) -> (state: PortState)
        ensures
            state == self@.state,
    {
        self.state
    }

    /// The queue that `core` has on this port.
    pub fn queue_on(&self, core: CoreId) -> (queue: Option<PortQueue>)
        ensures
            queue == queue_of(self@.queues, core),
    {
        let mut i: usize = 0;
        proof {
            assert(self.queues@.skip(0) =~= self.queues@);
        }
        while i < self.queues.len()
            invariant
                i <= self.queues.len(),
                queue_of(self@.queues, core) == queue_of(self.queues@.skip(i as int), core),
            decreases self.queues.len() - i,
        {
            proof {
                assert(self.queues@.skip(i as int).drop_first() =~= self.queues@.skip(i + 1));
            }
            if self.queues[i].0 == core {
                return Some(self.queues[i].1);
            }
            i += 1;
        }
        None
    }

    /// Records that the device has started.
    pub fn start(&mut self)
        requires
            old(self)@.state == PortState::Configured,
        ensures
            final(self)@ == old(self)@.with_state(PortState::Started),
    {
        self.state = PortState::Started;
    }

    /// Records that the device is stopped, and tells whether it had to be: a
    /// port that is not started stays as it is.
    pub fn stop(&mut self) -> (was_started: bool)
        ensures
            final(self)@ == old(self)@.with_state(after_stop(old(self)@.state)),
            old(self)@.state == PortState::Stopped ==> final(self)@ == old(self)@,
            was_started == (old(self)@.state == PortState::Started),
    {
        match self.state {
            PortState::Started => {
                self.state = PortState::Stopped;
                true
            },
            _ => false,
        }
    }
}

} // verus!
