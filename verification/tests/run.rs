use packet_runtime::assembly::{BuildEvent, Directive};
use packet_runtime::bootstrap::Progress;
use packet_runtime::error::{CoreError, PortError, RuntimeError};
use packet_runtime::machine::{Action, Event, Phase};
use packet_runtime::port::{DeviceInfo, PortState};
use packet_runtime::runtime::Runtime;
use packet_runtime::settings::{MempoolSettings, PortSettings, RuntimeSettings};
use packet_runtime::signal::UnixSignal;
use packet_runtime::topology::{CoreId, CoreInfo, SocketId};

type Handler = Box<dyn Fn(UnixSignal) -> bool>;

fn port(name: &str, cores: &[usize]) -> PortSettings {
    PortSettings {
        name: name.to_string(),
        device: format!("net_{}", name),
        cores: cores.iter().map(|c| CoreId::new(*c)).collect(),
        rxd: 128,
        txd: 128,
    }
}

fn settings(workers: &[usize], ports: Vec<PortSettings>, duration: Option<u64>) -> RuntimeSettings {
    RuntimeSettings {
        master_core: CoreId::new(0),
        cores: workers.iter().map(|c| CoreId::new(*c)).collect(),
        ports,
        mempool: MempoolSettings { capacity: 65535, cache_size: 256 },
        duration,
    }
}

fn one_socket(cores: usize) -> Vec<CoreInfo> {
    (0..cores).map(|c| CoreInfo { core: CoreId::new(c), socket: SocketId { raw: 0 } }).collect()
}

fn limits() -> DeviceInfo {
    DeviceInfo { rx_desc_min: 64, rx_desc_max: 4096, tx_desc_min: 64, tx_desc_max: 4096 }
}

/// Carries the assembly through with an environment in which nothing fails.
fn assemble(config: RuntimeSettings, topology: Vec<CoreInfo>) -> Runtime<Handler> {
    let mut progress = Runtime::<Handler>::build(config, Some(topology));
    loop {
        match progress {
            Progress::Next(boot, Directive::ProbeDevice { .. }) => {
                progress = boot.advance(BuildEvent::Probed(limits()));
            }
            Progress::Next(boot, Directive::Ignore) => {
                let _ = boot;
                panic!("an answer was ignored");
            }
            Progress::Next(boot, _) => {
                progress = boot.advance(BuildEvent::Done);
            }
            Progress::Ready(runtime) => return runtime,
            Progress::Failed(error) => panic!("assembly failed: {:?}", error),
        }
    }
}

fn states(runtime: &Runtime<Handler>) -> Vec<PortState> {
    runtime.ports().iter().map(|p| p.state()).collect()
}

#[test]
fn timeout_mode_without_pipelines() {
    let config = settings(&[1], vec![port("eth0", &[1])], Some(1));
    let mut runtime = assemble(config, one_socket(2));
    assert_eq!(runtime.phase(), Phase::Idle);
    assert_eq!(states(&runtime), vec![PortState::Configured]);

    assert!(matches!(runtime.execute(Event::Begin), Action::StartPort { port: 0 }));
    match runtime.execute(Event::Done) {
        Action::Unpark { core } => assert_eq!(core, CoreId::new(1)),
        other => panic!("{:?}", other),
    }
    assert_eq!(states(&runtime), vec![PortState::Started]);
    assert!(matches!(runtime.execute(Event::Done), Action::AwaitTimeout { seconds: 1 }));
    assert_eq!(runtime.phase(), Phase::AwaitingTimeout);
    assert!(!runtime.core_map().worker(0).parked);

    match runtime.execute(Event::Elapsed) {
        Action::StopWorker { core, shutdown, join } => {
            assert_eq!(core, CoreId::new(1));
            assert_eq!(shutdown.core_id(), CoreId::new(1));
            assert_eq!(join.core_id(), CoreId::new(1));
        }
        other => panic!("{:?}", other),
    }
    assert!(runtime.core_map().worker(0).shutdown.is_none());
    assert!(runtime.core_map().worker(0).join.is_none());
    assert!(matches!(runtime.execute(Event::Done), Action::StopPort { port: 0 }));
    assert!(matches!(runtime.execute(Event::Done), Action::Finish(Ok(()))));
    assert_eq!(runtime.phase(), Phase::Finished);
    assert_eq!(states(&runtime), vec![PortState::Stopped]);
}

#[test]
fn signal_mode_sigint_terminates() {
    let config = settings(&[1, 2], vec![port("eth0", &[1, 2])], None);
    let mut runtime = assemble(config, one_socket(3));
    assert!(matches!(runtime.execute(Event::Begin), Action::StartPort { port: 0 }));
    assert!(matches!(runtime.execute(Event::Done), Action::Unpark { core } if core == CoreId::new(1)));
    assert!(matches!(runtime.execute(Event::Done), Action::Unpark { core } if core == CoreId::new(2)));
    assert!(matches!(runtime.execute(Event::Done), Action::AwaitSignal));
    assert_eq!(runtime.phase(), Phase::AwaitingSignal);

    assert!(matches!(
        runtime.execute(Event::Signal(UnixSignal::SIGINT)),
        Action::StopWorker { core, .. } if core == CoreId::new(1)
    ));
    assert!(matches!(
        runtime.execute(Event::Done),
        Action::StopWorker { core, .. } if core == CoreId::new(2)
    ));
    assert!(matches!(runtime.execute(Event::Done), Action::StopPort { port: 0 }));
    assert!(matches!(runtime.execute(Event::Done), Action::Finish(Ok(()))));
    assert!(runtime.core_map().worker(0).join.is_none());
    assert!(runtime.core_map().worker(1).join.is_none());
    assert_eq!(states(&runtime), vec![PortState::Stopped]);
}

#[test]
fn sighup_ignored_sigterm_terminates() {
    let config = settings(&[1], vec![port("eth0", &[1])], None);
    let mut runtime = assemble(config, one_socket(2));
    runtime.set_on_signal(Box::new(|signal| !matches!(signal, UnixSignal::SIGHUP)));
    runtime.execute(Event::Begin);
    runtime.execute(Event::Done);
    assert!(matches!(runtime.execute(Event::Done), Action::AwaitSignal));

    assert!(matches!(runtime.execute(Event::Signal(UnixSignal::SIGHUP)), Action::AwaitSignal));
    assert_eq!(runtime.phase(), Phase::AwaitingSignal);
    assert!(runtime.core_map().worker(0).shutdown.is_some());

    assert!(matches!(
        runtime.execute(Event::Signal(UnixSignal::SIGTERM)),
        Action::StopWorker { .. }
    ));
    // the shutdown runs once: a further signal is answered with nothing
    assert!(matches!(runtime.execute(Event::Signal(UnixSignal::SIGTERM)), Action::Ignore));
    assert!(matches!(runtime.execute(Event::Done), Action::StopPort { port: 0 }));
    assert!(matches!(runtime.execute(Event::Done), Action::Finish(Ok(()))));
    assert!(matches!(runtime.execute(Event::Done), Action::Ignore));
}

#[test]
fn zero_duration_means_signal_mode() {
    let config = settings(&[1], vec![], Some(0));
    let mut runtime = assemble(config, one_socket(2));
    assert!(matches!(runtime.execute(Event::Begin), Action::Unpark { .. }));
    assert!(matches!(runtime.execute(Event::Done), Action::AwaitSignal));
    // the timer has nothing to say in signal mode
    assert!(matches!(runtime.execute(Event::Elapsed), Action::Ignore));
}

#[test]
fn latest_handler_is_the_one_asked() {
    let config = settings(&[1], vec![], None);
    let mut runtime = assemble(config, one_socket(2));
    runtime.set_on_signal(Box::new(|_| false)).set_on_signal(Box::new(|_| true));
    runtime.execute(Event::Begin);
    assert!(matches!(runtime.execute(Event::Done), Action::AwaitSignal));
    assert!(runtime.admits(UnixSignal::SIGHUP));
    assert!(matches!(
        runtime.execute(Event::Signal(UnixSignal::SIGHUP)),
        Action::StopWorker { .. }
    ));

    let mut other = assemble(settings(&[1], vec![], None), one_socket(2));
    other.set_on_signal(Box::new(|_| true)).set_on_signal(Box::new(|_| false));
    other.execute(Event::Begin);
    other.execute(Event::Done);
    assert!(!other.admits(UnixSignal::SIGINT));
    assert!(matches!(other.execute(Event::Signal(UnixSignal::SIGINT)), Action::AwaitSignal));
}

#[test]
fn react_takes_the_word_it_is_given() {
    let mut runtime = assemble(settings(&[1], vec![], None), one_socket(2));
    runtime.react(Event::Begin, false);
    assert!(matches!(runtime.react(Event::Done, false), Action::AwaitSignal));
    assert!(matches!(runtime.react(Event::Signal(UnixSignal::SIGINT), false), Action::AwaitSignal));
    assert!(matches!(
        runtime.react(Event::Signal(UnixSignal::SIGINT), true),
        Action::StopWorker { .. }
    ));
}

#[test]
fn port_that_does_not_start_turns_the_run_back() {
    let config = settings(&[1, 2], vec![port("eth0", &[1]), port("eth1", &[2])], Some(1));
    let mut runtime = assemble(config, one_socket(3));
    assert!(matches!(runtime.execute(Event::Begin), Action::StartPort { port: 0 }));
    assert!(matches!(runtime.execute(Event::Done), Action::StartPort { port: 1 }));
    // no worker is released; each is shut down and joined all the same
    match runtime.execute(Event::Failed) {
        Action::StopWorker { core, shutdown, join } => {
            assert_eq!(core, CoreId::new(1));
            assert_eq!(shutdown.core_id(), CoreId::new(1));
            assert_eq!(join.core_id(), CoreId::new(1));
        }
        other => panic!("{:?}", other),
    }
    assert_eq!(states(&runtime), vec![PortState::Started, PortState::Configured]);
    assert!(matches!(
        runtime.execute(Event::Done),
        Action::StopWorker { core, .. } if core == CoreId::new(2)
    ));
    assert!(matches!(runtime.execute(Event::Done), Action::StopPort { port: 0 }));
    assert!(matches!(runtime.execute(Event::Done), Action::StopPort { port: 1 }));
    assert!(matches!(
        runtime.execute(Event::Done),
        Action::Finish(Err(RuntimeError::Port(PortError::StartFailed(1))))
    ));
    assert_eq!(runtime.phase(), Phase::Finished);
    // the port that was started is stopped, the other was never started
    assert_eq!(states(&runtime), vec![PortState::Stopped, PortState::Configured]);
    for i in 0..runtime.core_map().len() {
        assert!(runtime.core_map().worker(i).parked);
        assert!(runtime.core_map().worker(i).shutdown.is_none());
        assert!(runtime.core_map().worker(i).join.is_none());
    }
    assert!(matches!(runtime.execute(Event::Begin), Action::Ignore));
}

#[test]
fn first_port_that_does_not_start() {
    let config = settings(&[], vec![port("eth0", &[])], Some(1));
    let mut runtime = assemble(config, one_socket(1));
    assert!(matches!(runtime.execute(Event::Begin), Action::StartPort { port: 0 }));
    assert!(matches!(runtime.execute(Event::Failed), Action::StopPort { port: 0 }));
    assert!(matches!(
        runtime.execute(Event::Done),
        Action::Finish(Err(RuntimeError::Port(PortError::StartFailed(0))))
    ));
    assert_eq!(states(&runtime), vec![PortState::Configured]);
}

#[test]
fn wait_for_signal_asks_the_handler_once_per_signal() {
    let config = settings(&[1], vec![], None);
    let mut runtime = assemble(config, one_socket(2));
    let asked = std::rc::Rc::new(std::cell::RefCell::new(Vec::new()));
    let seen = asked.clone();
    runtime.set_on_signal(Box::new(move |signal| {
        seen.borrow_mut().push(signal);
        matches!(signal, UnixSignal::SIGTERM)
    }));
    // a runtime that does not wait does not ask
    assert!(matches!(runtime.wait_for_signal(UnixSignal::SIGTERM), Action::Ignore));
    runtime.execute(Event::Begin);
    assert!(matches!(runtime.execute(Event::Done), Action::AwaitSignal));
    assert!(asked.borrow().is_empty());

    assert!(matches!(runtime.wait_for_signal(UnixSignal::SIGHUP), Action::AwaitSignal));
    assert!(matches!(runtime.wait_for_signal(UnixSignal::SIGINT), Action::AwaitSignal));
    assert_eq!(runtime.phase(), Phase::AwaitingSignal);
    assert!(matches!(runtime.wait_for_signal(UnixSignal::SIGTERM), Action::StopWorker { .. }));
    assert_eq!(runtime.phase(), Phase::StoppingWorkers);
    assert!(matches!(runtime.wait_for_signal(UnixSignal::SIGTERM), Action::Ignore));
    assert_eq!(
        *asked.borrow(),
        vec![UnixSignal::SIGHUP, UnixSignal::SIGINT, UnixSignal::SIGTERM]
    );
}

#[test]
fn failed_wait_still_shuts_down() {
    let config = settings(&[1], vec![port("eth0", &[1])], None);
    let mut runtime = assemble(config, one_socket(2));
    runtime.execute(Event::Begin);
    runtime.execute(Event::Done);
    assert!(matches!(runtime.execute(Event::Done), Action::AwaitSignal));
    assert!(matches!(runtime.execute(Event::Failed), Action::StopWorker { .. }));
    assert!(matches!(runtime.execute(Event::Done), Action::StopPort { port: 0 }));
    assert!(matches!(
        runtime.execute(Event::Done),
        Action::Finish(Err(RuntimeError::WaitFailed))
    ));
    assert_eq!(states(&runtime), vec![PortState::Stopped]);
}

#[test]
fn nothing_runs_before_execute() {
    let config = settings(&[1, 2], vec![port("eth0", &[1, 2])], Some(1));
    let mut runtime = assemble(config, one_socket(3));
    assert!(runtime.add_pipeline_to_port("eth0").is_ok());
    assert!(runtime.add_pipeline_to_core(1).is_ok());
    assert!(runtime.add_periodic_task_to_core(2).is_ok());
    runtime.set_on_signal(Box::new(|_| true));
    assert_eq!(runtime.phase(), Phase::Idle);
    for i in 0..runtime.core_map().len() {
        assert!(runtime.core_map().worker(i).parked);
    }
    // while ports start, the workers stay parked
    runtime.execute(Event::Begin);
    for i in 0..runtime.core_map().len() {
        assert!(runtime.core_map().worker(i).parked);
    }
    runtime.execute(Event::Done);
    assert!(!runtime.core_map().worker(0).parked);
    assert!(runtime.core_map().worker(1).parked);
    assert_eq!(states(&runtime), vec![PortState::Started]);
}

#[test]
fn add_pipeline_to_port_on_unknown_port() {
    let config = settings(&[1, 2], vec![port("eth0", &[2, 1])], Some(1));
    let runtime = assemble(config, one_socket(3));
    assert_eq!(
        runtime.add_pipeline_to_port("eth7"),
        Err(RuntimeError::Port(PortError::NotFound("eth7".to_string())))
    );
    // the runtime remains usable
    let installs = runtime.add_pipeline_to_port("eth0").unwrap();
    assert_eq!(installs.len(), 2);
    assert_eq!(installs[0].0, CoreId::new(2));
    assert_eq!(installs[0].1.port, 0);
    assert_eq!(installs[0].1.queue, 0);
    assert_eq!(installs[1].0, CoreId::new(1));
    assert_eq!(installs[1].1.queue, 1);
    assert_eq!(installs, *runtime.ports()[0].queues());
}

#[test]
fn add_pipeline_to_core_without_queues() {
    let config = settings(&[1, 2], vec![port("eth0", &[1])], Some(1));
    let runtime = assemble(config, one_socket(3));
    assert_eq!(
        runtime.add_pipeline_to_core(2),
        Err(RuntimeError::Core(CoreError::NotAssigned(2)))
    );
    assert_eq!(
        runtime.add_pipeline_to_core(5),
        Err(RuntimeError::Core(CoreError::NotFound(5)))
    );
    // the master is no worker
    assert_eq!(
        runtime.add_pipeline_to_core(0),
        Err(RuntimeError::Core(CoreError::NotFound(0)))
    );
}

#[test]
fn add_pipeline_to_core_hands_out_every_port() {
    let config = settings(
        &[1, 2],
        vec![port("eth0", &[1, 2]), port("eth1", &[2]), port("eth2", &[2, 1])],
        Some(1),
    );
    let runtime = assemble(config, one_socket(3));
    let queues = runtime.add_pipeline_to_core(1).unwrap();
    assert_eq!(queues.len(), 2);
    assert_eq!(queues[0].0, "eth0");
    assert_eq!((queues[0].1.port, queues[0].1.queue), (0, 0));
    assert_eq!(queues[1].0, "eth2");
    assert_eq!((queues[1].1.port, queues[1].1.queue), (2, 1));
    let queues = runtime.add_pipeline_to_core(2).unwrap();
    assert_eq!(queues.len(), 3);
    assert_eq!(queues[1].0, "eth1");
}

#[test]
fn add_periodic_task_to_core_needs_a_worker() {
    let runtime = assemble(settings(&[1], vec![], Some(1)), one_socket(2));
    assert_eq!(runtime.add_periodic_task_to_core(1), Ok(CoreId::new(1)));
    assert_eq!(
        runtime.add_periodic_task_to_core(3),
        Err(RuntimeError::Core(CoreError::NotFound(3)))
    );
}

#[test]
fn run_without_workers_or_ports() {
    let mut runtime = assemble(settings(&[], vec![], Some(3)), one_socket(1));
    assert!(matches!(runtime.execute(Event::Begin), Action::AwaitTimeout { seconds: 3 }));
    assert!(matches!(runtime.execute(Event::Elapsed), Action::Finish(Ok(()))));
}
