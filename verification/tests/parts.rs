use packet_runtime::core_map::{CoreMap, MasterExecutor};
use packet_runtime::error::{CoreError, PacketError, PortError, RuntimeError};
use packet_runtime::mempool_map::MempoolMap;
use packet_runtime::port::{DeviceInfo, Port, PortState};
use packet_runtime::raw::{MBuf, RawPacket};
use packet_runtime::settings::{MempoolSettings, PortSettings, RuntimeSettings};
use packet_runtime::signal::UnixSignal;
use packet_runtime::topology::{absorb_cores, has_core, has_socket, CoreId, CoreInfo, SocketId};

fn ids(cores: &[usize]) -> Vec<CoreId> {
    cores.iter().map(|c| CoreId::new(*c)).collect()
}

fn limits() -> DeviceInfo {
    DeviceInfo { rx_desc_min: 64, rx_desc_max: 4096, tx_desc_min: 64, tx_desc_max: 4096 }
}

fn workers_on(master: usize, cores: &[(usize, u32)]) -> CoreMap {
    let mut map = CoreMap::new(MasterExecutor {
        core: CoreId::new(master),
        socket: SocketId { raw: 0 },
    });
    for (core, socket) in cores {
        assert!(map.register(CoreId::new(*core), SocketId { raw: *socket }));
    }
    map
}

#[test]
fn new_raw_packet() {
    assert!(RawPacket::new(MBuf { addr: 0x7f00_0000_1000 }).is_ok());
}

#[test]
fn raw_packet_without_buffer() {
    assert_eq!(RawPacket::new(MBuf { addr: 0 }).err(), Some(PacketError::FailedAllocation));
}

#[test]
fn raw_packet_is_its_own_envelope() {
    let mbuf = MBuf { addr: 4096 };
    let packet = RawPacket::from_mbuf(mbuf);
    assert_eq!(packet.mbuf(), mbuf);
    assert_eq!(packet.envelope().mbuf(), mbuf);
    assert_eq!(packet.offset(), 0);
    assert_eq!(packet.header_len(), 0);
    packet.cascade();
    let packet = RawPacket::do_parse(packet).unwrap();
    let packet = RawPacket::do_push(packet).unwrap();
    let packet = packet.remove().unwrap();
    assert_eq!(packet.deparse().mbuf(), mbuf);
}

#[test]
fn signal_numbers() {
    assert_eq!(UnixSignal::SIGHUP.raw(), 1);
    assert_eq!(UnixSignal::SIGINT.raw(), 2);
    assert_eq!(UnixSignal::SIGTERM.raw(), 15);
}

#[test]
fn all_cores_is_the_union_master_first() {
    let config = RuntimeSettings {
        master_core: CoreId::new(4),
        cores: ids(&[2, 4, 2, 1]),
        ports: vec![
            PortSettings {
                name: "a".to_string(),
                device: "d0".to_string(),
                cores: ids(&[1, 7]),
                rxd: 1,
                txd: 1,
            },
            PortSettings {
                name: "b".to_string(),
                device: "d1".to_string(),
                cores: ids(&[7, 3, 4]),
                rxd: 1,
                txd: 1,
            },
        ],
        mempool: MempoolSettings { capacity: 1, cache_size: 0 },
        duration: None,
    };
    assert_eq!(config.all_cores(), ids(&[4, 2, 1, 7, 3]));
}

#[test]
fn executors_are_the_master_and_the_worker_list() {
    let config = RuntimeSettings {
        master_core: CoreId::new(4),
        cores: ids(&[2, 4, 2, 1]),
        ports: vec![PortSettings {
            name: "a".to_string(),
            device: "d0".to_string(),
            cores: ids(&[1, 7]),
            rxd: 1,
            txd: 1,
        }],
        mempool: MempoolSettings { capacity: 1, cache_size: 0 },
        duration: None,
    };
    assert_eq!(config.executor_cores(), ids(&[4, 2, 1]));
    assert_eq!(config.all_cores(), ids(&[4, 2, 1, 7]));
}

#[test]
fn errors_duplicate_as_they_are() {
    let errors = vec![
        RuntimeError::EalInitFailed,
        RuntimeError::WaitFailed,
        RuntimeError::CoreUnavailable(CoreId::new(3)),
        RuntimeError::CoreInitFailed(CoreId::new(4)),
        RuntimeError::AllocationFailed(SocketId { raw: 1 }),
        RuntimeError::SocketNotFound(SocketId { raw: 2 }),
        RuntimeError::Core(CoreError::NotAssigned(5)),
        RuntimeError::Core(CoreError::NotFound(6)),
        RuntimeError::Port(PortError::NotFound("eth9".to_string())),
        RuntimeError::Port(PortError::DuplicateName(1)),
        RuntimeError::Port(PortError::CoreUnknown(2, CoreId::new(7))),
        RuntimeError::Port(PortError::DeviceUnavailable(3)),
        RuntimeError::Port(PortError::InvalidDescriptorCount(4)),
        RuntimeError::Port(PortError::ConfigureFailed(5)),
        RuntimeError::Port(PortError::StartFailed(6)),
    ];
    for error in errors {
        assert_eq!(error.duplicate(), error);
    }
}

#[test]
fn absorbing_keeps_first_occurrences() {
    let mut acc = ids(&[5, 1]);
    absorb_cores(&mut acc, &ids(&[1, 2, 5, 2, 9]));
    assert_eq!(acc, ids(&[5, 1, 2, 9]));
    assert!(has_core(&acc, CoreId::new(9)));
    assert!(!has_core(&acc, CoreId::new(3)));
    assert!(has_socket(&vec![SocketId { raw: 1 }], SocketId { raw: 1 }));
    assert!(!has_socket(&vec![SocketId { raw: 1 }], SocketId { raw: 0 }));
}

#[test]
fn socket_of_a_core_is_that_of_its_first_entry() {
    let topology = vec![
        CoreInfo { core: CoreId::new(0), socket: SocketId { raw: 0 } },
        CoreInfo { core: CoreId::new(1), socket: SocketId { raw: 1 } },
        CoreInfo { core: CoreId::new(1), socket: SocketId { raw: 5 } },
    ];
    assert_eq!(CoreId::new(1).socket_id(&topology), Some(SocketId { raw: 1 }));
    assert_eq!(CoreId::new(0).socket_id(&topology), Some(SocketId { raw: 0 }));
    assert_eq!(CoreId::new(2).socket_id(&topology), None);
    assert_eq!(CoreId::new(7).raw(), 7);
}

#[test]
fn one_pool_per_distinct_socket() {
    let sockets: Vec<SocketId> = [1u32, 0, 1, 1, 3, 0].iter().map(|s| SocketId { raw: *s }).collect();
    let map = MempoolMap::new(2048, 32, &sockets);
    assert_eq!(map.len(), 3);
    assert_eq!(map.at(0).socket, SocketId { raw: 1 });
    assert_eq!(map.at(1).socket, SocketId { raw: 0 });
    assert_eq!(map.at(2).socket, SocketId { raw: 3 });
    assert_eq!(map.at(2).capacity, 2048);
    assert_eq!(map.at(2).cache_size, 32);
    assert!(map.has(SocketId { raw: 3 }));
    assert!(!map.has(SocketId { raw: 2 }));
    assert_eq!(map.get(SocketId { raw: 0 }).unwrap().socket, SocketId { raw: 0 });
    assert_eq!(
        map.get(SocketId { raw: 2 }).err(),
        Some(RuntimeError::SocketNotFound(SocketId { raw: 2 }))
    );
    assert_eq!(MempoolMap::new(1, 1, &vec![]).len(), 0);
    let mut map = map;
    let mut on_loan = map.borrow_mut();
    assert!(on_loan.has(SocketId { raw: 1 }));
    assert_eq!(on_loan.get(SocketId { raw: 3 }).unwrap().capacity, 2048);
    assert_eq!(
        on_loan.get(SocketId { raw: 7 }).err(),
        Some(RuntimeError::SocketNotFound(SocketId { raw: 7 }))
    );
}

#[test]
fn core_map_keeps_the_master_out_and_each_worker_once() {
    let mut map = workers_on(0, &[(1, 0), (2, 1)]);
    assert!(!map.register(CoreId::new(0), SocketId { raw: 0 }));
    assert!(!map.register(CoreId::new(2), SocketId { raw: 0 }));
    assert_eq!(map.len(), 2);
    assert_eq!(map.position(CoreId::new(2)), Some(1));
    assert_eq!(map.position(CoreId::new(0)), None);
    assert_eq!(map.socket_of(CoreId::new(2)), Some(SocketId { raw: 1 }));
    assert_eq!(map.socket_of(CoreId::new(3)), None);
    assert!(map.worker(1).parked);
    map.unpark(1);
    assert!(!map.worker(1).parked);
    assert!(map.worker(0).parked);
    let (shutdown, join) = map.disarm(1);
    assert_eq!(shutdown.core_id(), CoreId::new(2));
    assert_eq!(join.core_id(), CoreId::new(2));
    assert!(map.worker(1).shutdown.is_none() && map.worker(1).join.is_none());
    assert!(map.worker(0).shutdown.is_some() && map.worker(0).join.is_some());
    assert_eq!(map.pop().unwrap().core, CoreId::new(2));
    assert_eq!(map.pop().unwrap().core, CoreId::new(1));
    assert!(map.pop().is_none());
}

fn eth(cores: &[usize], rxd: usize, txd: usize) -> PortSettings {
    PortSettings {
        name: "eth3".to_string(),
        device: "0000:00:03.0".to_string(),
        cores: ids(cores),
        rxd,
        txd,
    }
}

#[test]
fn port_gets_one_queue_per_distinct_core() {
    let workers = workers_on(0, &[(1, 0), (2, 1), (3, 1)]);
    let mut pools = MempoolMap::new(1, 1, &vec![SocketId { raw: 0 }, SocketId { raw: 1 }]);
    let port =
        Port::plan(3, &eth(&[3, 1, 3, 3], 512, 1024), limits(), &workers, &mut pools.borrow_mut())
            .unwrap();
    assert_eq!(port.name(), "eth3");
    assert_eq!(port.device(), "0000:00:03.0");
    assert_eq!(port.state(), PortState::Configured);
    assert_eq!(port.queues().len(), 2);
    assert_eq!(port.queues()[0].0, CoreId::new(3));
    assert_eq!(port.queues()[0].1.port, 3);
    assert_eq!(port.queues()[0].1.queue, 0);
    assert_eq!(port.queues()[0].1.socket, SocketId { raw: 1 });
    assert_eq!(port.queues()[1].0, CoreId::new(1));
    assert_eq!(port.queues()[1].1.queue, 1);
    assert_eq!(port.queues()[1].1.socket, SocketId { raw: 0 });
    assert!(port.has_name(&"eth3".to_string()));
    assert!(!port.has_name(&"eth0".to_string()));
}

#[test]
fn port_plan_checks_cores_then_descriptors_then_pools() {
    let workers = workers_on(0, &[(1, 0), (2, 1)]);
    let mut pools = MempoolMap::new(1, 1, &vec![SocketId { raw: 0 }]);
    let mut plan = |settings: PortSettings| {
        Port::plan(0, &settings, limits(), &workers, &mut pools.borrow_mut()).err()
    };
    assert_eq!(
        plan(eth(&[1, 5, 6], 1, 1)),
        Some(RuntimeError::Port(PortError::CoreUnknown(0, CoreId::new(5))))
    );
    assert_eq!(
        plan(eth(&[1, 2], 1, 128)),
        Some(RuntimeError::Port(PortError::InvalidDescriptorCount(0)))
    );
    assert_eq!(plan(eth(&[1, 2], 128, 128)), Some(RuntimeError::SocketNotFound(SocketId { raw: 1 })));
    assert_eq!(plan(eth(&[1], 128, 128)), None);
}

#[test]
fn stop_on_a_stopped_port_is_a_no_op() {
    let workers = workers_on(0, &[(1, 0)]);
    let mut pools = MempoolMap::new(1, 1, &vec![SocketId { raw: 0 }]);
    let mut port =
        Port::plan(0, &eth(&[1], 128, 128), limits(), &workers, &mut pools.borrow_mut()).unwrap();
    // a port that was never started has nothing to stop
    assert!(!port.stop());
    assert_eq!(port.state(), PortState::Configured);
    port.start();
    assert_eq!(port.state(), PortState::Started);
    assert!(port.stop());
    assert_eq!(port.state(), PortState::Stopped);
    let queues = port.queues().clone();
    assert!(!port.stop());
    assert_eq!(port.state(), PortState::Stopped);
    assert_eq!(*port.queues(), queues);
    assert_eq!(port.name(), "eth3");
}
