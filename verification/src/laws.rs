//! What holds of every runtime.

use crate::core_map::worker_ids;
use crate::assembly::{name_taken, turned_back, BootView, BuildEvent, ProgressView, Stage};
use crate::distinct::{distinct, lemma_distinct};
use crate::error::{PortError, RuntimeError};
use crate::machine::{site, sites, verdict, Event, Phase, RuntimeView};
use crate::mempool_map::pool_sockets;
use crate::port::{after_stop, planned, queue_cores, PortState, PortView};
use crate::signal::UnixSignal;
use crate::topology::CoreId;
use vstd::prelude::*;

verus! {

/// The workers are those of the configuration's worker list: a core has a
/// worker exactly if the list names it and it is not the master core. A
/// core that only a port names has none.
pub proof fn lemma_workers_are_the_worker_list(runtime: RuntimeView, core: CoreId)
    requires
        runtime.assembled(),
    ensures
        runtime.cores.has(core) <==> runtime.config.cores@.contains(core) && core
            != runtime.config.master_core,
{
    let seated = runtime.config.seated();
    let ids = worker_ids(runtime.cores.workers);
    runtime.config.lemma_seated();
    if ids.contains(core) {
        let w = choose|w: int| 0 <= w < ids.len() && ids[w] == core;
        assert(seated[w + 1] == core);
        assert(seated.contains(core));
    }
    if runtime.config.cores@.contains(core) && core != runtime.config.master_core {
        assert(seated.contains(core));
        let k = choose|k: int| 0 <= k < seated.len() && seated[k] == core;
        assert(ids[k - 1] == core);
    }
}

/// Every core of the configuration's worker list, other than the master
/// core, has exactly one worker, and the master core has none.
pub proof fn lemma_one_worker_per_core(runtime: RuntimeView, core: CoreId)
    requires
        runtime.assembled(),
        runtime.config.cores@.contains(core),
        core != runtime.config.master_core,
    ensures
        exists|i: int|
            {
                &&& 0 <= i < runtime.cores.workers.len()
                &&& (#[trigger] runtime.cores.workers[i]).core == core
                &&& forall|j: int|
                    0 <= j < runtime.cores.workers.len() && (
                    #[trigger] runtime.cores.workers[j]).core == core ==> j == i
            },
        !runtime.cores.has(runtime.config.master_core),
{
    let ids = worker_ids(runtime.cores.workers);
    lemma_workers_are_the_worker_list(runtime, core);
    let i = choose|i: int| 0 <= i < ids.len() && ids[i] == core;
    assert(runtime.cores.workers[i].core == core);
    assert forall|j: int|
        0 <= j < runtime.cores.workers.len() && (#[trigger] runtime.cores.workers[j]).core
            == core implies j == i by {
        assert(ids[j] == core);
    }
}

/// The cores that have a queue on a port are those of the port's configured
/// core list, and none has two.
pub proof fn lemma_queues_as_assigned(runtime: RuntimeView, port: int)
    requires
        runtime.assembled(),
        0 <= port < runtime.ports.len(),
    ensures
        queue_cores(runtime.ports[port].queues).to_set() == runtime.config.ports@[port].cores@.to_set(),
        queue_cores(runtime.ports[port].queues).no_duplicates(),
{
    let assigned = runtime.config.ports@[port].cores@;
    let cores = queue_cores(runtime.ports[port].queues);
    assert(runtime.port_as_configured(port));
    lemma_distinct(assigned);
    assert(cores =~= distinct(assigned));
    assert(cores.to_set() =~= assigned.to_set());
}

/// The socket of every core in use has exactly one pool.
pub proof fn lemma_one_pool_per_socket(runtime: RuntimeView, core: CoreId)
    requires
        runtime.assembled(),
        runtime.config.cores_in_use().contains(core),
    ensures
        exists|i: int|
            {
                &&& 0 <= i < runtime.mempools.len()
                &&& (#[trigger] runtime.mempools[i]).socket == site(runtime.cores, core)
                &&& forall|j: int|
                    0 <= j < runtime.mempools.len() && (#[trigger] runtime.mempools[j]).socket
                        == site(runtime.cores, core) ==> j == i
            },
{
    let all = runtime.config.cores_in_use();
    let sockets = sites(runtime.cores, all);
    let pooled = pool_sockets(runtime.mempools);
    let wanted = site(runtime.cores, core);
    lemma_distinct(sockets);
    let k = choose|k: int| 0 <= k < all.len() && all[k] == core;
    assert(sockets[k] == wanted);
    assert(sockets.contains(wanted));
    assert(pooled.contains(wanted));
    let i = choose|i: int| 0 <= i < pooled.len() && pooled[i] == wanted;
    assert(runtime.mempools[i].socket == wanted);
    assert forall|j: int|
        0 <= j < runtime.mempools.len() && (#[trigger] runtime.mempools[j]).socket
            == wanted implies j == i by {
        assert(pooled[j] == wanted);
    }
}

/// Every queue is fed from the pool on the socket of the core that it
/// belongs to, and that pool exists.
pub proof fn lemma_queues_draw_locally(runtime: RuntimeView, port: int, queue: int)
    requires
        runtime.assembled(),
        0 <= port < runtime.ports.len(),
        0 <= queue < runtime.ports[port].queues.len(),
    ensures
        ({
            let (core, q) = runtime.ports[port].queues[queue];
            &&& runtime.cores.has(core)
            &&& q.socket == runtime.cores.socket(core)
            &&& q.port == port as usize
            &&& q.queue == queue as usize
            &&& pool_sockets(runtime.mempools).contains(q.socket)
        }),
{
    let assigned = runtime.config.ports@[port].cores@;
    let all = runtime.config.cores_in_use();
    let ids = worker_ids(runtime.cores.workers);
    let sockets = sites(runtime.cores, all);
    let (core, q) = runtime.ports[port].queues[queue];
    assert(runtime.port_as_configured(port));
    lemma_distinct(assigned);
    assert(distinct(assigned)[queue] == core);
    assert(distinct(assigned).contains(core));
    assert(assigned.contains(core));
    let k = choose|k: int| 0 <= k < assigned.len() && assigned[k] == core;
    assert(runtime.cores.has(assigned[k]));
    // the core of a worker is in use, and is not the master's
    lemma_workers_are_the_worker_list(runtime, core);
    runtime.config.lemma_seated();
    assert(runtime.config.seated().contains(core));
    assert(all.contains(core));
    let at = choose|at: int| 0 <= at < all.len() && all[at] == core;
    assert(sockets[at] == site(runtime.cores, core));
    lemma_distinct(sockets);
    assert(sockets.contains(q.socket));
}

/// Until the run begins, every worker is parked: nothing that was spawned
/// onto it runs.
pub proof fn lemma_parked_before_run(runtime: RuntimeView, worker: int)
    requires
        runtime.wf(),
        runtime.phase == Phase::Idle,
        0 <= worker < runtime.cores.workers.len(),
    ensures
        runtime.cores.workers[worker].parked,
{
}

/// A worker is released only in the run, and only once every port has been
/// started.
pub proof fn lemma_released_after_ports_started(runtime: RuntimeView, worker: int, port: int)
    requires
        runtime.wf(),
        0 <= worker < runtime.cores.workers.len(),
        !runtime.cores.workers[worker].parked,
        0 <= port < runtime.ports.len(),
    ensures
        runtime.phase != Phase::Idle,
        runtime.ports[port].state != PortState::Configured,
{
}

/// A worker is asked to stop only while it holds its trigger and its handle,
/// and gives both up with that: it is asked once.
pub proof fn lemma_stopped_once(runtime: RuntimeView, event: Event, admitted: bool)
    requires
        runtime.wf(),
        runtime.react(event, admitted).1 is StopWorker,
    ensures
        ({
            let after = runtime.react(event, admitted).0;
            let core = runtime.react(event, admitted).1->StopWorker_core;
            exists|i: int|
                {
                    &&& 0 <= i < runtime.cores.workers.len()
                    &&& (#[trigger] runtime.cores.workers[i]).core == core
                    &&& runtime.cores.workers[i].armed()
                    &&& after.cores.workers[i].spent()
                }
        }),
{
    let c = runtime.cursor as int;
    match (runtime.phase, event) {
        (Phase::AwaitingTimeout, Event::Elapsed) | (Phase::AwaitingTimeout, Event::Failed) | (
            Phase::AwaitingSignal,
            Event::Failed,
        ) | (Phase::AwaitingSignal, Event::Signal(_)) => {
            assert(runtime.cores.workers[0].armed());
        },
        (Phase::StoppingWorkers, _) => {
            assert(runtime.cores.workers[c + 1].armed());
        },
        _ => {},
    }
}

/// When a run ends, however it ends, every worker has been shut down and
/// joined and no port is started: each port that was started is stopped,
/// and a port that was never started is as it was configured. Unless a port
/// did not start, that is every port stopped.
pub proof fn lemma_all_down_at_the_end(runtime: RuntimeView, event: Event, admitted: bool)
    requires
        runtime.wf(),
        runtime.react(event, admitted).1 is Finish,
    ensures
        ({
            let after = runtime.react(event, admitted).0;
            &&& after.phase == Phase::Finished
            &&& forall|i: int|
                0 <= i < after.cores.workers.len() ==> (#[trigger] after.cores.workers[i]).spent()
            &&& forall|i: int|
                0 <= i < after.ports.len() ==> (#[trigger] after.ports[i]).state
                    != PortState::Started
            &&& forall|i: int|
                0 <= i < after.ports.len() ==> (#[trigger] after.ports[i]).state == if i
                    < after.reach() {
                    PortState::Stopped
                } else {
                    PortState::Configured
                }
            &&& !after.cut_short() ==> after.reach() == after.ports.len()
        }),
{
    runtime.lemma_react_keeps_wf(event, admitted);
}

/// A run ends with the first error that it met, and it can meet two: a port
/// that did not start, which is then the first port that is not stopped at
/// the end, and a wait that could not be set up.
pub proof fn lemma_errors_of_a_run(runtime: RuntimeView, event: Event, admitted: bool)
    requires
        runtime.wf(),
        runtime.react(event, admitted).1 is Finish,
    ensures
        ({
            let after = runtime.react(event, admitted).0;
            &&& runtime.react(event, admitted).1->Finish_0 == verdict(after.failure)
            &&& match after.failure {
                None => true,
                Some(RuntimeError::Port(PortError::StartFailed(port))) => port < after.ports.len()
                    && after.ports[port as int].state == PortState::Configured,
                Some(e) => e == RuntimeError::WaitFailed,
            }
        }),
{
    runtime.lemma_react_keeps_wf(event, admitted);
    let after = runtime.react(event, admitted).0;
    if after.cut_short() {
        assert(after.ports[after.reach()].state == PortState::Configured);
    }
}

/// A port that does not start turns the run back at once: no further port
/// is started and no worker is released, the error is noted, and the
/// shutdown begins.
pub proof fn lemma_failed_start_turns_back(runtime: RuntimeView)
    requires
        runtime.wf(),
        runtime.phase == Phase::StartingPorts,
    ensures
        ({
            let (after, action) = runtime.react(Event::Failed, false);
            &&& after.failure == Some(
                RuntimeError::Port(PortError::StartFailed(runtime.cursor as usize)),
            )
            &&& after.phase != Phase::StartingPorts && after.phase != Phase::Unparking
            &&& action is StopWorker || action is StopPort || action is Finish
            &&& forall|i: int|
                0 <= i < after.cores.workers.len() ==> (#[trigger] after.cores.workers[i]).parked
            &&& forall|i: int|
                runtime.cursor <= i < after.ports.len() ==> (#[trigger] after.ports[i]).state
                    == PortState::Configured
        }),
{
    runtime.lemma_react_keeps_wf(Event::Failed, false);
}

/// Signals change nothing in a runtime that does not wait for one.
pub proof fn lemma_signals_pass_by(runtime: RuntimeView, signals: Seq<UnixSignal>, words: Seq<bool>)
    requires
        runtime.phase != Phase::AwaitingSignal,
        signals.len() == words.len(),
    ensures
        runtime.after_signals(signals, words) == runtime,
    decreases signals.len(),
{
    if signals.len() > 0 {
        lemma_signals_pass_by(runtime, signals.drop_last(), words.drop_last());
    }
}

/// The wait for a signal ends at the first signal that the handler admits,
/// and not before: while every signal is rejected the runtime goes on
/// waiting and nothing changes; at the first admitted one the shutdown
/// begins, and what arrives after it changes nothing.
pub proof fn lemma_waits_for_the_first_admitted(
    runtime: RuntimeView,
    signals: Seq<UnixSignal>,
    words: Seq<bool>,
)
    requires
        runtime.wf(),
        runtime.phase == Phase::AwaitingSignal,
        signals.len() == words.len(),
    ensures
        (forall|i: int| 0 <= i < words.len() ==> !words[i]) ==> runtime.after_signals(
            signals,
            words,
        ) == runtime,
        forall|k: int|
            0 <= k < words.len() && words[k] && (forall|i: int| 0 <= i < k ==> !words[i])
                ==> #[trigger] runtime.react(Event::Signal(signals[k]), true).0
                == runtime.after_signals(signals, words) && runtime.after_signals(
                signals,
                words,
            ).phase != Phase::AwaitingSignal,
    decreases signals.len(),
{
    if signals.len() > 0 {
        let n = signals.len() - 1;
        let before = runtime.after_signals(signals.drop_last(), words.drop_last());
        lemma_waits_for_the_first_admitted(runtime, signals.drop_last(), words.drop_last());
        runtime.lemma_react_keeps_wf(Event::Signal(signals[n]), true);
        if forall|i: int| 0 <= i < n ==> !words[i] {
            assert forall|i: int| 0 <= i < words.drop_last().len() implies !words.drop_last()[i] by {
                assert(!words[i]);
            }
            assert(before == runtime);
        }
        assert forall|k: int|
            0 <= k < words.len() && words[k] && (forall|i: int|
                0 <= i < k ==> !words[i]) implies #[trigger] runtime.react(
            Event::Signal(signals[k]),
            true,
        ).0 == runtime.after_signals(signals, words) && runtime.after_signals(signals, words).phase
            != Phase::AwaitingSignal by {
            if k < n {
                assert(words.drop_last()[k]);
                assert forall|i: int| 0 <= i < k implies !words.drop_last()[i] by {
                    assert(!words[i]);
                }
                assert(signals.drop_last()[k] == signals[k]);
                runtime.lemma_react_keeps_wf(Event::Signal(signals[k]), true);
            } else {
                assert forall|i: int| 0 <= i < n implies !words[i] by {}
            }
        }
    }
}

/// Every answer that is taken brings the end of the run nearer: a run ends
/// after as many answers as there are ports and workers, twice over, and
/// two, and as many signals as the handler does not admit.
pub proof fn lemma_run_progresses(runtime: RuntimeView, event: Event, admitted: bool)
    requires
        runtime.wf(),
        !(runtime.react(event, admitted).1 is Ignore),
        !(runtime.phase == Phase::AwaitingSignal && event is Signal && !admitted),
    ensures
        0 <= runtime.react(event, admitted).0.steps_left() < runtime.steps_left(),
        runtime.react(event, admitted).1 is Finish <==> runtime.react(event, admitted).0.steps_left()
            == 0,
{
}

/// Every answer that is taken brings the end of the assembly nearer.
pub proof fn lemma_assembly_progresses(boot: BootView, event: BuildEvent)
    requires
        boot.wf(),
        boot.advance(event) is Next,
        !(boot.advance(event)->Next_1 is Ignore),
    ensures
        0 <= boot.advance(event)->Next_0.steps_left() < boot.steps_left(),
{
    boot.lemma_advance_keeps_wf(event);
}

/// Stopping a port twice is stopping it once; stopping a stopped port
/// changes nothing.
pub proof fn lemma_stop_idempotent(port: PortView)
    ensures
        after_stop(after_stop(port.state)) == after_stop(port.state),
        port.state == PortState::Stopped ==> port.with_state(after_stop(port.state)) == port,
{
}

/// An assembly that is under way turns back on three things only, and on
/// each of them: an answer that what was asked could not be done, a port
/// that cannot be laid out against what its device advertises, and a port
/// that repeats the name of an earlier one. The error says which.
pub proof fn lemma_assembly_turns_back_only_on(boot: BootView, event: BuildEvent)
    requires
        boot.wf(),
        boot.stage != Stage::Unwinding,
    ensures
        ({
            let at = boot.ports.len() as int;
            let error = turned_back(boot.advance(event));
            match (boot.stage, event) {
                (Stage::Pools, BuildEvent::Failed) => error == Some(
                    RuntimeError::AllocationFailed(boot.plan()[boot.pools.len() as int]),
                ),
                (Stage::Master, BuildEvent::Failed) => error == Some(
                    RuntimeError::CoreInitFailed(boot.config.master_core),
                ),
                (Stage::Workers, BuildEvent::Failed) => error == Some(
                    RuntimeError::CoreInitFailed(
                        boot.config.worker_cores()[boot.workers.len() as int],
                    ),
                ),
                (Stage::Probing, BuildEvent::Failed) => error == Some(
                    RuntimeError::Port(PortError::DeviceUnavailable(at as usize)),
                ),
                (Stage::Configuring, BuildEvent::Failed) => error == Some(
                    RuntimeError::Port(PortError::ConfigureFailed(at as usize)),
                ),
                (Stage::Probing, BuildEvent::Probed(info)) => match planned(
                    at as usize,
                    boot.config.ports@[at],
                    info,
                    boot.cores(),
                    pool_sockets(boot.pools),
                ) {
                    Ok(_) => error is None,
                    Err(e) => error == Some(e),
                },
                (Stage::Configuring, BuildEvent::Done) => if at + 1 < boot.config.ports@.len()
                    && name_taken(
                    boot.ports.push(boot.draft.unwrap()),
                    boot.config.ports@[at + 1].name@,
                ) {
                    error == Some(RuntimeError::Port(PortError::DuplicateName((at + 1) as usize)))
                } else {
                    error is None
                },
                _ => error is None,
            }
        }),
{
    boot.lemma_advance_keeps_wf(event);
}

/// An assembly fails only once nothing of it is left: every worker that was
/// up has been handed out to be shut down and joined, and every pool that
/// existed to be released. The error is the one of the step that failed.
pub proof fn lemma_failure_leaves_nothing(boot: BootView, event: BuildEvent)
    requires
        boot.wf(),
        boot.advance(event) is Failed,
    ensures
        boot.workers.len() == 0,
        boot.pools.len() == 0,
        boot.stage == Stage::Unwinding ==> boot.advance(event) == ProgressView::Failed(
            boot.failure.unwrap(),
        ),
{
}

/// While an assembly is taken down, each step takes down one worker or one
/// pool, workers first, and nothing is built.
pub proof fn lemma_unwinding_only_takes_down(boot: BootView, event: BuildEvent)
    requires
        boot.wf(),
        boot.stage == Stage::Unwinding,
        !(event is Probed),
        boot.advance(event) is Next,
    ensures
        ({
            let after = boot.advance(event)->Next_0;
            &&& after.stage == Stage::Unwinding
            &&& after.failure == boot.failure
            &&& if boot.workers.len() > 0 {
                after.workers == boot.workers.drop_last() && after.pools == boot.pools
            } else {
                after.workers == boot.workers && after.pools == boot.pools.drop_last()
            }
        }),
{
}

} // verus!
