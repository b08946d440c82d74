use packet_runtime::assembly::{BuildEvent, Directive};
use packet_runtime::bootstrap::Progress;
use packet_runtime::error::{PortError, RuntimeError};
use packet_runtime::machine::Phase;
use packet_runtime::port::{DeviceInfo, PortState};
use packet_runtime::runtime::Runtime;
use packet_runtime::settings::{MempoolSettings, PortSettings, RuntimeSettings};
use packet_runtime::signal::UnixSignal;
use packet_runtime::topology::{CoreId, CoreInfo, SocketId};

type Handler = fn(UnixSignal) -> bool;

fn port(name: &str, cores: &[usize]) -> PortSettings {
    PortSettings {
        name: name.to_string(),
        device: format!("net_{}", name),
        cores: cores.iter().map(|c| CoreId::new(*c)).collect(),
        rxd: 128,
        txd: 256,
    }
}

fn settings(master: usize, workers: &[usize], ports: Vec<PortSettings>) -> RuntimeSettings {
    RuntimeSettings {
        master_core: CoreId::new(master),
        cores: workers.iter().map(|c| CoreId::new(*c)).collect(),
        ports,
        mempool: MempoolSettings { capacity: 65535, cache_size: 256 },
        duration: None,
    }
}

/// Cores 0 to 3; the even ones on socket 0, the odd ones on socket 1.
fn two_sockets() -> Vec<CoreInfo> {
    (0..4)
        .map(|c| CoreInfo { core: CoreId::new(c), socket: SocketId { raw: (c % 2) as u32 } })
        .collect()
}

fn limits() -> DeviceInfo {
    DeviceInfo { rx_desc_min: 64, rx_desc_max: 4096, tx_desc_min: 64, tx_desc_max: 4096 }
}

fn next(progress: Progress<Handler>, event: BuildEvent) -> Progress<Handler> {
    match progress {
        Progress::Next(boot, _) => boot.advance(event),
        Progress::Ready(_) => panic!("the runtime is ready"),
        Progress::Failed(error) => panic!("assembly failed: {:?}", error),
    }
}

fn directive(progress: &Progress<Handler>) -> &Directive {
    match progress {
        Progress::Next(_, directive) => directive,
        Progress::Ready(_) => panic!("the runtime is ready"),
        Progress::Failed(error) => panic!("assembly failed: {:?}", error),
    }
}

fn ready(progress: Progress<Handler>) -> Runtime<Handler> {
    match progress {
        Progress::Ready(runtime) => runtime,
        Progress::Next(_, directive) => panic!("more to do: {:?}", directive),
        Progress::Failed(error) => panic!("assembly failed: {:?}", error),
    }
}

fn failure(progress: Progress<Handler>) -> RuntimeError {
    match progress {
        Progress::Failed(error) => error,
        Progress::Next(_, directive) => panic!("more to do: {:?}", directive),
        Progress::Ready(_) => panic!("the runtime is ready"),
    }
}

#[test]
fn assembly_goes_pools_master_workers_ports() {
    let config = settings(0, &[1, 2, 3], vec![port("eth0", &[1, 2]), port("eth1", &[3])]);
    let mut p = Runtime::<Handler>::build(config, Some(two_sockets()));
    assert!(matches!(
        directive(&p),
        Directive::CreateMempool { socket: SocketId { raw: 0 }, capacity: 65535, cache_size: 256 }
    ));
    p = next(p, BuildEvent::Done);
    assert!(matches!(
        directive(&p),
        Directive::CreateMempool { socket: SocketId { raw: 1 }, capacity: 65535, cache_size: 256 }
    ));
    p = next(p, BuildEvent::Done);
    assert!(matches!(directive(&p), Directive::InitMaster { core: CoreId { raw: 0 } }));
    p = next(p, BuildEvent::Done);
    assert!(matches!(
        directive(&p),
        Directive::LaunchWorker { core: CoreId { raw: 1 }, socket: SocketId { raw: 1 } }
    ));
    p = next(p, BuildEvent::Done);
    assert!(matches!(
        directive(&p),
        Directive::LaunchWorker { core: CoreId { raw: 2 }, socket: SocketId { raw: 0 } }
    ));
    p = next(p, BuildEvent::Done);
    assert!(matches!(
        directive(&p),
        Directive::LaunchWorker { core: CoreId { raw: 3 }, socket: SocketId { raw: 1 } }
    ));
    p = next(p, BuildEvent::Done);
    assert!(matches!(directive(&p), Directive::ProbeDevice { port: 0 }));
    p = next(p, BuildEvent::Probed(limits()));
    assert!(matches!(directive(&p), Directive::ConfigurePort { port: 0 }));
    if let Progress::Next(boot, _) = &p {
        let pending = boot.pending_port().unwrap();
        assert_eq!(pending.name(), "eth0");
        assert_eq!(pending.device(), "net_eth0");
        assert_eq!(pending.queues().len(), 2);
        assert_eq!(pending.queues()[0].1.socket, SocketId { raw: 1 });
        assert_eq!(pending.queues()[1].1.socket, SocketId { raw: 0 });
    }
    p = next(p, BuildEvent::Done);
    assert!(matches!(directive(&p), Directive::ProbeDevice { port: 1 }));
    p = next(p, BuildEvent::Probed(limits()));
    assert!(matches!(directive(&p), Directive::ConfigurePort { port: 1 }));
    p = next(p, BuildEvent::Done);
    let runtime = ready(p);

    assert_eq!(runtime.phase(), Phase::Idle);
    // one worker for each worker core, none for the master
    let map = runtime.core_map();
    assert_eq!(map.master().core, CoreId::new(0));
    assert_eq!(map.len(), 3);
    for core in [1usize, 2, 3] {
        let at = map.position(CoreId::new(core)).unwrap();
        assert_eq!(map.worker(at).core, CoreId::new(core));
        assert!(map.worker(at).parked);
        assert!(map.worker(at).shutdown.is_some());
        assert!(map.worker(at).join.is_some());
        let same = (0..map.len()).filter(|i| map.worker(*i).core == CoreId::new(core)).count();
        assert_eq!(same, 1);
    }
    assert_eq!(map.position(CoreId::new(0)), None);
    // one pool for each socket in use
    let pools = runtime.mempools();
    assert_eq!(pools.len(), 2);
    assert_eq!(pools.at(0).socket, SocketId { raw: 0 });
    assert_eq!(pools.at(1).socket, SocketId { raw: 1 });
    assert_eq!(pools.at(1).capacity, 65535);
    assert_eq!(pools.at(1).cache_size, 256);
    // one queue for each core of each port
    let ports = runtime.ports();
    assert_eq!(ports.len(), 2);
    assert_eq!(ports[0].state(), PortState::Configured);
    let cores: Vec<CoreId> = ports[0].queues().iter().map(|q| q.0).collect();
    assert_eq!(cores, vec![CoreId::new(1), CoreId::new(2)]);
    let cores: Vec<CoreId> = ports[1].queues().iter().map(|q| q.0).collect();
    assert_eq!(cores, vec![CoreId::new(3)]);
    assert_eq!(ports[1].queues()[0].1.port, 1);
    assert_eq!(ports[1].queue_on(CoreId::new(3)), Some(ports[1].queues()[0].1));
    assert_eq!(ports[1].queue_on(CoreId::new(1)), None);
}

#[test]
fn master_in_the_worker_list_gets_no_worker() {
    let config = settings(1, &[1, 2, 2], vec![]);
    let mut p = Runtime::<Handler>::build(config, Some(two_sockets()));
    p = next(p, BuildEvent::Done);
    p = next(p, BuildEvent::Done);
    assert!(matches!(directive(&p), Directive::InitMaster { core: CoreId { raw: 1 } }));
    p = next(p, BuildEvent::Done);
    assert!(matches!(directive(&p), Directive::LaunchWorker { core: CoreId { raw: 2 }, .. }));
    let runtime = ready(next(p, BuildEvent::Done));
    assert_eq!(runtime.core_map().len(), 1);
    assert_eq!(runtime.core_map().position(CoreId::new(1)), None);
}

#[test]
fn refused_environment_fails_at_once() {
    let config = settings(0, &[1], vec![]);
    let p = Runtime::<Handler>::build(config, None);
    assert_eq!(failure(p), RuntimeError::EalInitFailed);
}

#[test]
fn core_that_is_not_offered_fails_at_once() {
    let config = settings(0, &[1, 9], vec![port("eth0", &[7])]);
    let p = Runtime::<Handler>::build(config, Some(two_sockets()));
    assert_eq!(failure(p), RuntimeError::CoreUnavailable(CoreId::new(9)));
    let config = settings(0, &[1], vec![port("eth0", &[7])]);
    let p = Runtime::<Handler>::build(config, Some(two_sockets()));
    assert_eq!(failure(p), RuntimeError::CoreUnavailable(CoreId::new(7)));
}

#[test]
fn failed_pool_releases_the_earlier_ones() {
    let config = settings(0, &[1], vec![]);
    let mut p = Runtime::<Handler>::build(config, Some(two_sockets()));
    p = next(p, BuildEvent::Done);
    assert!(matches!(directive(&p), Directive::CreateMempool { socket: SocketId { raw: 1 }, .. }));
    p = next(p, BuildEvent::Failed);
    assert!(matches!(directive(&p), Directive::ReleaseMempool { socket: SocketId { raw: 0 } }));
    p = next(p, BuildEvent::Done);
    assert_eq!(failure(p), RuntimeError::AllocationFailed(SocketId { raw: 1 }));
}

#[test]
fn failed_first_pool_leaves_nothing_to_release() {
    let config = settings(0, &[1], vec![]);
    let p = Runtime::<Handler>::build(config, Some(two_sockets()));
    assert_eq!(
        failure(next(p, BuildEvent::Failed)),
        RuntimeError::AllocationFailed(SocketId { raw: 0 })
    );
}

#[test]
fn failed_worker_takes_the_others_down() {
    let config = settings(0, &[1, 2, 3], vec![]);
    let mut p = Runtime::<Handler>::build(config, Some(two_sockets()));
    p = next(p, BuildEvent::Done);
    p = next(p, BuildEvent::Done);
    p = next(p, BuildEvent::Done);
    p = next(p, BuildEvent::Done);
    p = next(p, BuildEvent::Done);
    assert!(matches!(directive(&p), Directive::LaunchWorker { core: CoreId { raw: 3 }, .. }));
    p = next(p, BuildEvent::Failed);
    match directive(&p) {
        Directive::StopWorker { core, shutdown, join } => {
            assert_eq!(*core, CoreId::new(2));
            assert_eq!(shutdown.core_id(), CoreId::new(2));
            assert_eq!(join.core_id(), CoreId::new(2));
        }
        other => panic!("{:?}", other),
    }
    p = next(p, BuildEvent::Done);
    assert!(matches!(directive(&p), Directive::StopWorker { core: CoreId { raw: 1 }, .. }));
    // a join that fails does not hold the rest up
    p = next(p, BuildEvent::Failed);
    assert!(matches!(directive(&p), Directive::ReleaseMempool { socket: SocketId { raw: 1 } }));
    p = next(p, BuildEvent::Done);
    assert!(matches!(directive(&p), Directive::ReleaseMempool { socket: SocketId { raw: 0 } }));
    p = next(p, BuildEvent::Done);
    assert_eq!(failure(p), RuntimeError::CoreInitFailed(CoreId::new(3)));
}

#[test]
fn failed_master_releases_the_pools() {
    let config = settings(2, &[], vec![]);
    let mut p = Runtime::<Handler>::build(config, Some(two_sockets()));
    p = next(p, BuildEvent::Done);
    assert!(matches!(directive(&p), Directive::InitMaster { core: CoreId { raw: 2 } }));
    p = next(p, BuildEvent::Failed);
    assert!(matches!(directive(&p), Directive::ReleaseMempool { socket: SocketId { raw: 0 } }));
    assert_eq!(failure(next(p, BuildEvent::Done)), RuntimeError::CoreInitFailed(CoreId::new(2)));
}

fn up_to_first_probe(config: RuntimeSettings) -> Progress<Handler> {
    let mut p = Runtime::<Handler>::build(config, Some(two_sockets()));
    while !matches!(directive(&p), Directive::ProbeDevice { .. }) {
        p = next(p, BuildEvent::Done);
    }
    p
}

fn unwound(mut p: Progress<Handler>) -> RuntimeError {
    loop {
        match p {
            Progress::Next(boot, Directive::StopWorker { .. })
            | Progress::Next(boot, Directive::ReleaseMempool { .. }) => {
                p = boot.advance(BuildEvent::Done);
            }
            Progress::Next(_, other) => panic!("{:?}", other),
            Progress::Ready(_) => panic!("the runtime is ready"),
            Progress::Failed(error) => return error,
        }
    }
}

#[test]
fn duplicate_port_name_is_refused() {
    let config = settings(0, &[1], vec![port("eth0", &[1]), port("eth1", &[1]), port("eth0", &[1])]);
    let mut p = up_to_first_probe(config);
    p = next(p, BuildEvent::Probed(limits()));
    p = next(p, BuildEvent::Done);
    assert!(matches!(directive(&p), Directive::ProbeDevice { port: 1 }));
    p = next(p, BuildEvent::Probed(limits()));
    p = next(p, BuildEvent::Done);
    // the third port is not probed: the worker is stopped at once
    assert!(matches!(directive(&p), Directive::StopWorker { core: CoreId { raw: 1 }, .. }));
    assert_eq!(unwound(p), RuntimeError::Port(PortError::DuplicateName(2)));
}

#[test]
fn port_on_a_core_outside_the_worker_list_is_refused() {
    let config = settings(0, &[1], vec![port("eth0", &[1]), port("eth1", &[1, 3, 2])]);
    let mut p = Runtime::<Handler>::build(config, Some(two_sockets()));
    // the sockets of all the cores that are referred to get a pool
    assert!(matches!(directive(&p), Directive::CreateMempool { socket: SocketId { raw: 0 }, .. }));
    p = next(p, BuildEvent::Done);
    assert!(matches!(directive(&p), Directive::CreateMempool { socket: SocketId { raw: 1 }, .. }));
    p = next(p, BuildEvent::Done);
    assert!(matches!(directive(&p), Directive::InitMaster { .. }));
    p = next(p, BuildEvent::Done);
    // only the worker list makes workers
    assert!(matches!(directive(&p), Directive::LaunchWorker { core: CoreId { raw: 1 }, .. }));
    p = next(p, BuildEvent::Done);
    assert!(matches!(directive(&p), Directive::ProbeDevice { port: 0 }));
    p = next(p, BuildEvent::Probed(limits()));
    p = next(p, BuildEvent::Done);
    assert!(matches!(directive(&p), Directive::ProbeDevice { port: 1 }));
    p = next(p, BuildEvent::Probed(limits()));
    assert!(matches!(directive(&p), Directive::StopWorker { core: CoreId { raw: 1 }, .. }));
    p = next(p, BuildEvent::Done);
    assert!(matches!(directive(&p), Directive::ReleaseMempool { socket: SocketId { raw: 1 } }));
    p = next(p, BuildEvent::Done);
    assert!(matches!(directive(&p), Directive::ReleaseMempool { socket: SocketId { raw: 0 } }));
    p = next(p, BuildEvent::Done);
    assert_eq!(failure(p), RuntimeError::Port(PortError::CoreUnknown(1, CoreId::new(3))));
}

#[test]
fn port_on_the_master_core_is_refused() {
    let config = settings(0, &[1], vec![port("eth0", &[1, 0])]);
    let p = up_to_first_probe(config);
    let p = next(p, BuildEvent::Probed(limits()));
    assert_eq!(unwound(p), RuntimeError::Port(PortError::CoreUnknown(0, CoreId::new(0))));
}

#[test]
fn descriptor_count_out_of_range_is_refused() {
    for (rxd, txd) in [(63usize, 256usize), (4097, 256), (128, 63), (128, 4097)] {
        let mut eth0 = port("eth0", &[1]);
        eth0.rxd = rxd;
        eth0.txd = txd;
        let p = up_to_first_probe(settings(0, &[1], vec![eth0]));
        let p = next(p, BuildEvent::Probed(limits()));
        assert_eq!(unwound(p), RuntimeError::Port(PortError::InvalidDescriptorCount(0)));
    }
    for (rxd, txd) in [(64usize, 64usize), (4096, 4096)] {
        let mut eth0 = port("eth0", &[1]);
        eth0.rxd = rxd;
        eth0.txd = txd;
        let p = up_to_first_probe(settings(0, &[1], vec![eth0]));
        let p = next(p, BuildEvent::Probed(limits()));
        assert!(matches!(directive(&p), Directive::ConfigurePort { port: 0 }));
    }
}

#[test]
fn device_that_cannot_be_probed_or_configured() {
    let p = up_to_first_probe(settings(0, &[1], vec![port("eth0", &[1])]));
    let p = next(p, BuildEvent::Failed);
    assert_eq!(unwound(p), RuntimeError::Port(PortError::DeviceUnavailable(0)));

    let p = up_to_first_probe(settings(0, &[1], vec![port("eth0", &[1])]));
    let p = next(p, BuildEvent::Probed(limits()));
    let p = next(p, BuildEvent::Failed);
    assert_eq!(unwound(p), RuntimeError::Port(PortError::ConfigureFailed(0)));
}

#[test]
fn answer_that_fits_nothing_is_ignored() {
    let config = settings(0, &[1], vec![port("eth0", &[1])]);
    let mut p = Runtime::<Handler>::build(config, Some(two_sockets()));
    p = next(p, BuildEvent::Probed(limits()));
    assert!(matches!(directive(&p), Directive::Ignore));
    p = next(p, BuildEvent::Done);
    assert!(matches!(directive(&p), Directive::CreateMempool { socket: SocketId { raw: 1 }, .. }));
    let mut p = up_to_first_probe(settings(0, &[1], vec![port("eth0", &[1])]));
    p = next(p, BuildEvent::Done);
    assert!(matches!(directive(&p), Directive::Ignore));
    p = next(p, BuildEvent::Probed(limits()));
    assert!(matches!(directive(&p), Directive::ConfigurePort { port: 0 }));
}
