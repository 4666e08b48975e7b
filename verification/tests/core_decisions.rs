use rusty_p4::bmv2::Bmv2Event;
use rusty_p4::core_state::{manager_stream_event, stream_response_event, AddDeviceStep, CoreState, ManagerEmit};
use rusty_p4::event::CoreEvent;
use rusty_p4::runtime::{MasterArbitrationUpdate, PacketIn, PacketMetadata, StreamMessageResponse, Uint128};
use rusty_p4::event::CommonEvents;
use rusty_p4::pipeconf::PipeconfID;
use rusty_p4::representation::{Device, DeviceID, DeviceType};
use rusty_p4::statistic::{read_stratum_load, stratum_counter_slot, CounterReading};
use rusty_p4::sync_app::SyncAppsBuilder;
use rusty_p4::util::hash;
use std::collections::hash_map::DefaultHasher;
use std::hash::{Hash, Hasher};

#[test]
fn hash_is_the_default_hasher() {
    let mut h = DefaultHasher::new();
    "switch1".hash(&mut h);
    assert_eq!(hash("switch1"), h.finish());
    assert_eq!(hash("switch1"), hash("switch1"));
    assert_ne!(hash("switch1"), hash("switch2"));
}

#[test]
fn devices_named_by_hash() {
    let d = Device::new_bmv2("s1", "127.0.0.1:50051", "pc", 3);
    assert_eq!(d.id, DeviceID(hash("s1")));
    assert_eq!(d.name, "s1");
    assert!(d.ports.is_empty());
    match &d.typ {
        DeviceType::Bmv2MASTER { socket_addr, device_id, pipeconf } => {
            assert_eq!(socket_addr, "127.0.0.1:50051");
            assert_eq!(*device_id, 3);
            assert_eq!(*pipeconf, PipeconfID(hash("pc")));
        }
        other => panic!("unexpected {:?}", other),
    }
    let s = Device::new_stratum_bmv2("s1", "a", "pc", 4);
    assert_eq!(s.id, d.id);
    assert!(matches!(s.typ, DeviceType::StratumMASTER { device_id: 4, .. }));
}

#[test]
fn adding_devices_to_the_core() {
    let mut core = CoreState::new();
    let d = Device::new_bmv2("s1", "addr", "pc", 3);
    assert_eq!(core.add_device_step(&d), AddDeviceStep::PipeconfMissing);
    assert!(core.add_pipeconf(PipeconfID(hash("pc"))).is_some());
    assert!(core.add_pipeconf(PipeconfID(hash("pc"))).is_none());
    let step = core.add_device_step(&d);
    match step {
        AddDeviceStep::ConnectBmv2 { option, pipeconf } => {
            assert_eq!(option.p4_device_id, 3);
            assert_eq!(option.inner_device_id, Some(d.id.0));
            assert_eq!(option.master_update.map(|m| (m.election_id_high, m.election_id_low)), Some((0, 1)));
            assert_eq!(pipeconf, PipeconfID(hash("pc")));
        }
        other => panic!("unexpected {:?}", other),
    }
    let id = d.id;
    let (sent, ret) = core.add_device_done(d, step, true);
    assert!(sent.is_none());
    assert!(matches!(ret, Some(CommonEvents::DeviceAdded(_))));
    let d = Device::new_bmv2("s1", "addr", "pc", 3);
    assert_eq!(core.add_device_step(&d), AddDeviceStep::AlreadyConnected);
    assert!(matches!(core.remove_device(id), Some(CommonEvents::DeviceLost(x)) if x == id));
    let step = core.add_device_step(&d);
    let (sent, ret) = core.add_device_done(d, step, false);
    assert!(matches!(sent, Some(CommonEvents::DeviceLost(x)) if x == id));
    assert!(ret.is_none());
    let v = Device { typ: DeviceType::VIRTUAL, ..Device::new_bmv2("v", "", "", 0) };
    assert_eq!(core.add_device_step(&v), AddDeviceStep::Ready);
}

#[test]
fn pipeconf_requests() {
    let mut core = CoreState::new();
    assert!(core.remove_pipeconf(PipeconfID(1)).is_none());
    core.add_pipeconf(PipeconfID(1));
    // removing a pipeconf is reported as `PipeconfAdded`
    assert!(matches!(core.remove_pipeconf(PipeconfID(1)), Some(CommonEvents::PipeconfAdded(PipeconfID(1)))));
    core.add_pipeconf(PipeconfID(2));
    assert!(!core.update_pipeconf_step(DeviceID(5), PipeconfID(2)));
    assert!(matches!(
        CoreState::update_pipeconf_done(DeviceID(5), PipeconfID(2), true, true),
        Some(CommonEvents::DevicePipeconfUpdate(DeviceID(5), PipeconfID(2)))
    ));
    assert!(CoreState::update_pipeconf_done(DeviceID(5), PipeconfID(2), true, false).is_none());
}

#[test]
fn apps_by_priority() {
    let mut b: SyncAppsBuilder<u32> = SyncAppsBuilder::new();
    b.with(5, "five", 5);
    b.with(7, "seven", 7);
    b.with(3, "three", 3);
    b.with(5, "five again", 55);
    b.with(6, "six", 6);
    let base = b.build();
    // the builder keeps [5, 6, 7]: 3 is below every priority, the second 5 equals one
    assert_eq!(base.names(), vec!["seven", "six", "five"]);
}

#[test]
fn stratum_interface_load() {
    assert_eq!(stratum_counter_slot("in-octets"), Some(5));
    assert_eq!(stratum_counter_slot("out-unicast-pkts"), Some(13));
    assert_eq!(stratum_counter_slot("speed"), None);
    let readings = vec![
        CounterReading { name: Some("in-octets".to_string()), value: Some(1000) },
        CounterReading { name: Some("out-errors".to_string()), value: Some(2) },
        CounterReading { name: Some("speed".to_string()), value: Some(5) },
        CounterReading { name: None, value: Some(3) },
        CounterReading { name: Some("in-octets".to_string()), value: Some(1500) },
        CounterReading { name: Some("in-discards".to_string()), value: Some(u64::MAX) },
        CounterReading { name: Some("in-errors".to_string()), value: None },
    ];
    let loads = read_stratum_load(&readings);
    let mut expected = [0i64; 14];
    expected[5] = 1500;
    expected[10] = 2;
    expected[1] = -1;
    assert_eq!(loads, expected);
}

#[test]
fn stream_messages_to_core_events() {
    let m = MasterArbitrationUpdate { device_id: 1, election_id: Some(Uint128 { high: 0, low: 1 }) };
    match stream_response_event(DeviceID(9), StreamMessageResponse::Arbitration(m)) {
        Some(CoreEvent::Bmv2MasterUpdate(id, got)) => {
            assert_eq!(id, DeviceID(9));
            assert_eq!(got, m);
        }
        other => panic!("unexpected {:?}", other),
    }
    let p = PacketIn {
        payload: bytes::Bytes::from(vec![1u8, 2, 3]),
        metadata: vec![PacketMetadata { metadata_id: 1, value: bytes::Bytes::from(vec![0u8, 4]) }],
    };
    assert!(stream_response_event(DeviceID(9), StreamMessageResponse::Packet(p)).is_none());
    assert!(stream_response_event(DeviceID(9), StreamMessageResponse::Digest).is_none());
}

#[test]
fn stream_messages_to_manager_emits() {
    let m = MasterArbitrationUpdate { device_id: 1, election_id: Some(Uint128 { high: 0, low: 1 }) };
    match manager_stream_event(DeviceID(9), StreamMessageResponse::Arbitration(m)) {
        Some(ManagerEmit::Manager(e)) => assert_eq!(e, Bmv2Event::DeviceAdded),
        other => panic!("unexpected {:?}", other),
    }
    let p = PacketIn {
        payload: bytes::Bytes::from(vec![1u8, 2, 3]),
        metadata: vec![PacketMetadata { metadata_id: 1, value: bytes::Bytes::from(vec![0u8, 4]) }],
    };
    match manager_stream_event(DeviceID(9), StreamMessageResponse::Packet(p)) {
        Some(ManagerEmit::Packet(r)) => {
            assert_eq!(r.from, DeviceID(9));
            assert_eq!(r.packet.as_ref(), &[1, 2, 3]);
            assert_eq!(r.metadata[0].metadata_id, 1);
        }
        other => panic!("unexpected {:?}", other),
    }
    assert!(manager_stream_event(DeviceID(9), StreamMessageResponse::Digest).is_none());
}

#[test]
fn adding_a_stratum_switch() {
    let mut core = CoreState::new();
    let d = Device::new_stratum_bmv2("s2", "addr", "pc", 4);
    assert_eq!(core.add_device_step(&d), AddDeviceStep::PipeconfMissing);
    core.add_pipeconf(PipeconfID(hash("pc")));
    assert_eq!(
        core.add_device_step(&d),
        AddDeviceStep::ConnectStratum { p4_device_id: 4, inner_device_id: Some(d.id.0), pipeconf: PipeconfID(hash("pc")) }
    );
}
