use rusty_p4::bmv2::{Bmv2ConnectionOption, Bmv2MasterUpdateOption};
use rusty_p4::entity::{CounterIndex, Meter, MulticastGroupEntry, Replica, ToEntity, UpdateType};
use rusty_p4::flow::{Flow, FlowAction, FlowActionParam, FlowMatch, FlowTable};
use rusty_p4::p4info::{
    Action, ControllerPacketMetadata, Counter, DirectCounter, Match, MatchField, Metadata, Meter as P4Meter,
    P4Info, Param, Preamble, Table,
};
use rusty_p4::pipeconf::{DefaultPipeconf, Pipeconf, PipeconfID};
use rusty_p4::pure::{
    adjust_value, adjust_value_with, build_table_entry, get_action, get_action_param_by_name, get_actions_id,
    get_counter, get_counter_id, get_directcounter, get_directcounter_id, get_match_field_by_id,
    get_match_field_by_name, get_meter, get_meter_id, get_packin_egress_port_metaid,
    get_packout_egress_port_metaid, get_table, get_table_id, new_master_update_request,
    new_packet_out_request, new_set_entity_request, new_set_forwarding_pipeline_config_request,
    new_write_table_entry, table_entry_to_entity,
};
use rusty_p4::representation::DeviceID;
use rusty_p4::runtime::{
    Entity, FieldMatchType, MasterArbitrationUpdate, PacketReplicationEngineEntry, StreamMessageRequest, Uint128,
    UpdateKind, VERIFY_AND_COMMIT,
};
use rusty_p4::util::{hash, hash_flow};
use rusty_p4::handle::{entity_request, insert_flow, set_entity, set_flow};
use rusty_p4::error::ContextErrorKind;
use std::hash::{Hash, Hasher};
use rusty_p4::value::{encode, IpAddr, Ipv4Addr, EXACT, LPM, MAC, TERNARY};
use std::sync::Arc;

fn pre(id: u32, name: &str, alias: &str) -> Option<Preamble> {
    Some(Preamble { id, name: name.to_string(), alias: alias.to_string() })
}

fn field(id: u32, name: &str, bitwidth: i32, kind: i32) -> MatchField {
    MatchField { id, name: name.to_string(), bitwidth, match_kind: Some(Match::MatchType(kind)) }
}

fn p4info() -> P4Info {
    P4Info {
        tables: vec![Table {
            preamble: pre(10, "MyIngress.ipv4_lpm", "ipv4_lpm"),
            match_fields: vec![
                field(1, "hdr.ipv4.dstAddr", 32, 3),
                field(2, "hdr.ethernet.etherType", 16, 2),
                field(3, "meta.tag", 12, 4),
            ],
        }],
        actions: vec![Action {
            preamble: pre(20, "MyIngress.forward", "forward"),
            params: vec![
                Param { id: 1, name: "port".to_string(), bitwidth: 9 },
                Param { id: 2, name: "dmac".to_string(), bitwidth: 48 },
            ],
        }],
        meters: vec![P4Meter { preamble: pre(30, "MyIngress.meter", "meter") }],
        counters: vec![Counter { preamble: pre(40, "MyIngress.counter", "counter") }],
        direct_counters: vec![DirectCounter { preamble: pre(50, "MyIngress.direct", "direct") }],
        controller_packet_metadata: vec![
            ControllerPacketMetadata {
                preamble: pre(60, "packet_out", "packet_out"),
                metadata: vec![Metadata { id: 1, name: "egress_port".to_string() }],
            },
            ControllerPacketMetadata {
                preamble: pre(61, "packet_in", "packet_in"),
                metadata: vec![
                    Metadata { id: 7, name: "padding".to_string() },
                    Metadata { id: 8, name: "ingress_port".to_string() },
                ],
            },
        ],
    }
}

#[test]
fn lookups_by_name_and_alias() {
    let p = p4info();
    assert_eq!(get_table_id(&p, "MyIngress.ipv4_lpm"), Some(10));
    assert_eq!(get_table_id(&p, "ipv4_lpm"), Some(10));
    assert!(get_table(&p, "nope").is_none());
    assert_eq!(get_actions_id(&p, "forward"), Some(20));
    assert!(get_action(&p, "MyIngress.forward").is_some());
    assert_eq!(get_meter_id(&p, "meter"), Some(30));
    assert!(get_meter(&p, "x").is_none());
    assert_eq!(get_counter_id(&p, "MyIngress.counter"), Some(40));
    assert!(get_counter(&p, "counter").is_some());
    assert_eq!(get_directcounter_id(&p, "direct"), Some(50));
    assert!(get_directcounter(&p, "nope").is_none());
    // match fields are found by the table's full name only
    assert_eq!(get_match_field_by_name(&p, "MyIngress.ipv4_lpm", "meta.tag").map(|f| f.id), Some(3));
    assert!(get_match_field_by_name(&p, "ipv4_lpm", "meta.tag").is_none());
    assert_eq!(get_match_field_by_id(&p, "MyIngress.ipv4_lpm", 2).map(|f| f.bitwidth), Some(16));
    assert_eq!(get_action_param_by_name(&p, "forward", "dmac").map(|q| q.id), Some(2));
    assert!(get_action_param_by_name(&p, "forward", "nope").is_none());
    assert_eq!(get_packout_egress_port_metaid(&p), Some(1));
    assert_eq!(get_packin_egress_port_metaid(&p), Some(8));
}

#[test]
fn fitting_values() {
    let v = bytes::Bytes::from(vec![1u8, 2, 3, 4]);
    assert_eq!(adjust_value(v.clone(), 2).as_ref(), &[3, 4]);
    assert_eq!(adjust_value(v.clone(), 4).as_ref(), &[1, 2, 3, 4]);
    assert_eq!(adjust_value(v.clone(), 6).as_ref(), &[1, 2, 3, 4, 0, 0]);
    assert_eq!(adjust_value_with(v, 5, 0xff).as_ref(), &[1, 2, 3, 4, 0xff]);
}

fn flow() -> Flow {
    Flow {
        table: Arc::new(FlowTable {
            name: "MyIngress.ipv4_lpm",
            matches: vec![
                FlowMatch { name: "hdr.ipv4.dstAddr", value: LPM(IpAddr::V4(Ipv4Addr::new(10, 0, 1, 0)), 24) },
                FlowMatch { name: "hdr.ethernet.etherType", value: EXACT(0x800u32) },
                FlowMatch { name: "meta.tag", value: EXACT(0x0123u16) },
            ],
        }),
        action: Arc::new(FlowAction {
            name: "forward",
            params: vec![
                FlowActionParam { name: "port", value: encode(3u32) },
                FlowActionParam { name: "dmac", value: encode(MAC([1, 2, 3, 4, 5, 6])) },
            ],
        }),
        priority: 7,
        metadata: 0,
    }
}

fn check_entry(e: &rusty_p4::runtime::TableEntry, metadata: u64) {
    assert_eq!(e.table_id, 10);
    assert_eq!(e.priority, 7);
    assert_eq!(e.controller_metadata, metadata);
    assert!(!e.is_default_action);
    assert_eq!(e.matches.len(), 3);
    assert_eq!(e.matches[0].field_id, 1);
    match &e.matches[0].field_match_type {
        Some(FieldMatchType::Lpm(v, l)) => {
            assert_eq!(v.as_ref(), &[10, 0, 1, 0]);
            assert_eq!(*l, 24);
        }
        other => panic!("unexpected {:?}", other),
    }
    match &e.matches[1].field_match_type {
        Some(FieldMatchType::Exact(v)) => assert_eq!(v.as_ref(), &[0x08, 0x00]),
        other => panic!("unexpected {:?}", other),
    }
    // an exact value on a ternary field is matched under the all-ones mask
    match &e.matches[2].field_match_type {
        Some(FieldMatchType::Ternary(v, m)) => {
            assert_eq!(v.as_ref(), &[0x01, 0x23]);
            assert_eq!(m.as_ref(), &[0xff, 0xff]);
        }
        other => panic!("unexpected {:?}", other),
    }
    let call = e.action.as_ref().unwrap().action.as_ref().unwrap();
    assert_eq!(call.action_id, 20);
    assert_eq!(call.params.len(), 2);
    assert_eq!(call.params[0].param_id, 1);
    assert_eq!(call.params[0].value.as_ref(), &[0, 3]);
    assert_eq!(call.params[1].value.as_ref(), &[1, 2, 3, 4, 5, 6]);
}

#[test]
fn table_entry_of_a_flow() {
    let p = p4info();
    let f = flow();
    let e = build_table_entry(&p, f.table.name, &f.table.matches, false, f.action.name, &f.action.params, f.priority, 99);
    check_entry(&e, 99);
    let pipeconf = DefaultPipeconf::new("pc", p4info(), "/tmp/x.json").unwrap();
    let e = f.to_table_entry(&pipeconf, 5);
    check_entry(&e, 5);
    // a ternary value is kept, its mask fitted to the field
    let p = p4info();
    let m = [FlowMatch { name: "meta.tag", value: TERNARY(0x0123u16, 0x0ff0u32) }];
    let e = build_table_entry(&p, "MyIngress.ipv4_lpm", &m, true, "", &[], 0, 0);
    match &e.matches[0].field_match_type {
        Some(FieldMatchType::Ternary(v, mask)) => {
            assert_eq!(v.as_ref(), &[0x01, 0x23]);
            assert_eq!(mask.as_ref(), &[0x0f, 0xf0]);
        }
        other => panic!("unexpected {:?}", other),
    }
    assert!(e.action.as_ref().unwrap().action.is_none());
    assert!(e.is_default_action);
}

#[test]
fn pipeconf_from_p4info() {
    let pc = DefaultPipeconf::new("my_pipeconf", p4info(), "/path/prog.json").unwrap();
    assert_eq!(pc.get_id(), PipeconfID(hash("my_pipeconf")));
    assert_eq!(Pipeconf::get_name(&pc), "my_pipeconf");
    assert_eq!(pc.get_bmv2_file_path(), "/path/prog.json");
    assert_eq!(pc.packetout_egress_id, 1);
    assert_eq!(pc.packetin_ingress_id, 8);
    assert_eq!(Pipeconf::get_packetin_ingress_id(&pc), 8);
    assert_eq!(pc.get_p4info().tables.len(), 1);
    let mut p = p4info();
    p.controller_packet_metadata.pop();
    assert!(DefaultPipeconf::new("x", p, "y").is_none());
    let mut p = p4info();
    p.controller_packet_metadata.insert(0, ControllerPacketMetadata { preamble: None, metadata: vec![] });
    assert!(DefaultPipeconf::new("x", p, "y").is_none());
}

#[test]
fn requests() {
    let p = p4info();
    let f = flow();
    let e = build_table_entry(&p, f.table.name, &f.table.matches, true, f.action.name, &f.action.params, 1, 0);
    let w = new_write_table_entry(3, e, UpdateType::Insert);
    assert_eq!(w.device_id, 3);
    // the default action is always modified
    assert_eq!(w.updates[0].update_type, 2);
    let e = build_table_entry(&p, f.table.name, &f.table.matches, false, f.action.name, &f.action.params, 1, 0);
    let w = new_write_table_entry(3, e, UpdateType::Delete);
    assert_eq!(w.updates[0].update_type, 3);
    assert_eq!(w.election_id.map(|u| (u.high, u.low)), Some((0, 1)));
    let e = build_table_entry(&p, f.table.name, &f.table.matches, false, f.action.name, &f.action.params, 1, 0);
    let w = new_set_entity_request(4, table_entry_to_entity(e), UpdateKind::from(UpdateType::Modify));
    assert_eq!(w.updates[0].update_type, 2);
    assert!(matches!(w.updates[0].entity, Some(Entity::TableEntry(_))));

    let pc = DefaultPipeconf::new("pc", p4info(), "f").unwrap();
    let r = new_packet_out_request(&pc, 0x0001_0203, bytes::Bytes::from(vec![9u8, 9]));
    match r {
        StreamMessageRequest::Packet(po) => {
            assert_eq!(po.payload.as_ref(), &[9, 9]);
            assert_eq!(po.metadata[0].metadata_id, 1);
            assert_eq!(po.metadata[0].value.as_ref(), &[0x02, 0x03]);
        }
        other => panic!("unexpected {:?}", other),
    }
    let r = new_master_update_request(5, Bmv2MasterUpdateOption::default());
    match r {
        StreamMessageRequest::Arbitration(m) => {
            assert_eq!(m.device_id, 5);
            assert_eq!(m.election_id.map(|u| (u.high, u.low)), Some((0, 1)));
        }
        other => panic!("unexpected {:?}", other),
    }
    let o = Bmv2ConnectionOption::default();
    assert_eq!(o.p4_device_id, 1);
    assert_eq!(o.inner_device_id, None);
}

#[test]
fn entities() {
    let pc = DefaultPipeconf::new("pc", p4info(), "f").unwrap();
    let m = Meter { name: "meter", index: 2, cburst: 3, cir: 4, pburst: 5, pir: 6 };
    match m.to_proto_entity(&pc) {
        Some(Entity::MeterEntry(e)) => {
            assert_eq!(e.meter_id, 30);
            assert_eq!(e.index.map(|i| i.index), Some(2));
            let c = e.config.unwrap();
            assert_eq!((c.cir, c.cburst, c.pir, c.pburst), (4, 3, 6, 5));
        }
        other => panic!("unexpected {:?}", other),
    }
    let g = MulticastGroupEntry {
        multicast_group_id: 9,
        replicas: vec![Replica { egress_port: 1, instance: 0 }, Replica { egress_port: 2, instance: 1 }],
    };
    match g.to_proto_entity(&pc) {
        Some(Entity::PacketReplicationEngineEntry(PacketReplicationEngineEntry::MulticastGroupEntry(e))) => {
            assert_eq!(e.multicast_group_id, 9);
            assert_eq!(e.replicas.len(), 2);
            assert_eq!(e.replicas[1].egress_port, 2);
        }
        other => panic!("unexpected {:?}", other),
    }
    let c = CounterIndex { device: DeviceID(3), id: 12, index: Some(4) };
    let entry = c.to_counter_entry();
    assert_eq!(entry.counter_id, 12);
    assert_eq!(CounterIndex::from_counter_entry(&entry, DeviceID(3)), c);
    let all = CounterIndex { device: DeviceID(3), id: 12, index: None };
    assert_eq!(CounterIndex::from_counter_entry(&all.to_counter_entry(), DeviceID(3)), all);
}

#[test]
fn flows_written_to_connected_devices() {
    let conns = vec![(DeviceID(1), DefaultPipeconf::new("pc", p4info(), "f").unwrap())];
    let f = flow();
    let mut h = std::collections::hash_map::DefaultHasher::new();
    f.hash(&mut h);
    let expected = h.finish();
    assert_eq!(hash_flow(&f), expected);
    let (written, req) = insert_flow(&conns, f, DeviceID(1)).unwrap();
    assert_eq!(written.metadata, expected);
    assert_eq!(req.device, DeviceID(1));
    assert_eq!(req.op, UpdateType::Insert);
    match &req.entity {
        Entity::TableEntry(e) => check_entry(e, expected),
        other => panic!("unexpected {:?}", other),
    }
    let err = set_flow(&conns, flow(), DeviceID(2), UpdateType::Delete).unwrap_err();
    assert_eq!(err, ContextErrorKind::DeviceNotConnected { device: DeviceID(2) });
}

#[test]
fn entities_written_to_connected_devices() {
    let conns = vec![(DeviceID(1), DefaultPipeconf::new("pc", p4info(), "f").unwrap())];
    let m = Meter { name: "meter", index: 0, cburst: 1, cir: 2, pburst: 3, pir: 4 };
    let req = set_entity(&conns, DeviceID(1), UpdateType::Modify, &m).unwrap();
    assert_eq!(req.device, DeviceID(1));
    assert_eq!(req.op, UpdateType::Modify);
    assert!(matches!(req.entity, Entity::MeterEntry(e) if e.meter_id == 30));
    let err = set_entity(&conns, DeviceID(5), UpdateType::Modify, &m).unwrap_err();
    assert_eq!(err, ContextErrorKind::DeviceNotConnected { device: DeviceID(5) });
    assert_eq!(entity_request(DeviceID(1), UpdateType::Insert, None).unwrap_err(), ContextErrorKind::EntityIsNone);
}

#[test]
fn set_entity_carries_the_converted_entity() {
    let conns = vec![
        (DeviceID(2), DefaultPipeconf::new("pc", p4info(), "f").unwrap()),
        (DeviceID(1), DefaultPipeconf::new("pc", p4info(), "f").unwrap()),
    ];
    let m = Meter { name: "meter", index: 7, cburst: 1, cir: 2, pburst: 3, pir: 4 };
    let req = set_entity(&conns, DeviceID(1), UpdateType::Insert, &m).unwrap();
    assert_eq!((req.device, req.op), (DeviceID(1), UpdateType::Insert));
    match req.entity {
        Entity::MeterEntry(e) => {
            assert_eq!(e.meter_id, 30);
            assert_eq!(e.index.map(|i| i.index), Some(7));
            let c = e.config.unwrap();
            assert_eq!((c.cir, c.cburst, c.pir, c.pburst), (2, 1, 4, 3));
        }
        other => panic!("unexpected {:?}", other),
    }
    let g = MulticastGroupEntry {
        multicast_group_id: 11,
        replicas: vec![Replica { egress_port: 5, instance: 0 }, Replica { egress_port: 6, instance: 2 }],
    };
    let req = set_entity(&conns, DeviceID(2), UpdateType::Delete, &g).unwrap();
    assert_eq!((req.device, req.op), (DeviceID(2), UpdateType::Delete));
    match req.entity {
        Entity::PacketReplicationEngineEntry(PacketReplicationEngineEntry::MulticastGroupEntry(e)) => {
            assert_eq!(e.multicast_group_id, 11);
            let ports: Vec<(u32, u32)> = e.replicas.iter().map(|r| (r.egress_port, r.instance)).collect();
            assert_eq!(ports, vec![(5, 0), (6, 2)]);
        }
        other => panic!("unexpected {:?}", other),
    }
}

#[test]
fn forwarding_pipeline_request_carries_program_and_bid() {
    let bid = MasterArbitrationUpdate { device_id: 4, election_id: Some(Uint128 { high: 0, low: 7 }) };
    let config = b"{\"program\": 1}".to_vec();
    let req = new_set_forwarding_pipeline_config_request(p4info(), config.clone(), &bid, 4);
    assert_eq!(req.device_id, 4);
    assert_eq!(req.role_id, 0);
    assert_eq!(req.election_id, Some(Uint128 { high: 0, low: 7 }));
    assert_eq!(req.action, VERIFY_AND_COMMIT);
    assert_eq!(VERIFY_AND_COMMIT, 3);
    let c = req.config.unwrap();
    assert_eq!(c.p4_device_config, config);
    assert_eq!(c.cookie, None);
    assert_eq!(c.p4info.unwrap().meters.len(), p4info().meters.len());
}

#[test]
fn table_entry_leaves_optional_parts_unset() {
    let p = p4info();
    let f = flow();
    let e = build_table_entry(&p, f.table.name, &f.table.matches, false, f.action.name, &f.action.params, f.priority, 7);
    assert_eq!(e.controller_metadata, 7);
    assert_eq!(e.idle_timeout_ns, 0);
    assert!(e.meter_config.is_none());
    assert!(e.counter_data.is_none());
    assert!(e.time_since_last_hit.is_none());
    assert!(e.metadata.is_empty());
}
