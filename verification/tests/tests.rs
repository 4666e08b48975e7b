use rusty_p4::flow::{Flow, FlowAction, FlowActionParam, FlowMatch, FlowTable};
use rusty_p4::value::{encode, InnerValue, IpAddr, Ipv4Addr, EXACT, LPM, RANGE, TERNARY};
use std::sync::Arc;

fn bytes_of(b: &bytes::Bytes) -> Vec<u8> {
    b.as_ref().to_vec()
}

#[test]
fn test_macro() {
    let flow = Flow {
        table: Arc::new(FlowTable {
            name: "MyIngress.xxxx",
            matches: vec![
                FlowMatch {
                    name: "aaaa",
                    value: TERNARY(IpAddr::V4(Ipv4Addr::new(10, 0, 0, 1)), 0b1111),
                },
                FlowMatch { name: "bbbb", value: RANGE(0x123, 0x456) },
            ],
        }),
        action: Arc::new(FlowAction {
            name: "action_name",
            params: vec![
                FlowActionParam { name: "abcd", value: encode(0x1234) },
                FlowActionParam { name: "xyz", value: encode(0x445) },
            ],
        }),
        metadata: 0,
        priority: 0,
    };
    println!("{:#?}", flow);
    assert_eq!(flow.table.name, "MyIngress.xxxx");
    match &flow.table.matches[0].value {
        InnerValue::TERNARY(v, m) => {
            assert_eq!(bytes_of(v), vec![10, 0, 0, 1]);
            assert_eq!(bytes_of(m), vec![0, 0, 0, 0b1111]);
        }
        other => panic!("unexpected {:?}", other),
    }
    match &flow.table.matches[1].value {
        InnerValue::RANGE(lo, hi) => {
            assert_eq!(bytes_of(lo), vec![0, 0, 0x01, 0x23]);
            assert_eq!(bytes_of(hi), vec![0, 0, 0x04, 0x56]);
        }
        other => panic!("unexpected {:?}", other),
    }
    assert_eq!(flow.action.name, "action_name");
    assert_eq!(bytes_of(&flow.action.params[0].value), vec![0, 0, 0x12, 0x34]);
    assert_eq!(bytes_of(&flow.action.params[1].value), vec![0, 0, 0x04, 0x45]);
    assert_eq!(flow.priority, 0);
    assert_eq!(flow.metadata, 0);
}

#[test]
fn test_empty() {
    let matches: Vec<FlowMatch> = Vec::with_capacity(5);
    assert!(matches.is_empty());
}

#[test]
fn test_two() {
    let matches: Vec<FlowMatch> = vec![
        FlowMatch { name: "abcd", value: RANGE(1u32, 2u32) },
        FlowMatch { name: "abcd", value: EXACT(1u32) },
        FlowMatch { name: "abcd", value: LPM(1u32, 8) },
        FlowMatch { name: "abcd", value: TERNARY(1u32, 2u32) },
    ];
    assert_eq!(matches.len(), 4);
    match &matches[2].value {
        InnerValue::LPM(v, l) => {
            assert_eq!(bytes_of(v), vec![0, 0, 0, 1]);
            assert_eq!(*l, 8);
        }
        other => panic!("unexpected {:?}", other),
    }
    match &matches[1].value {
        InnerValue::EXACT(v) => assert_eq!(bytes_of(v), vec![0, 0, 0, 1]),
        other => panic!("unexpected {:?}", other),
    }
}

#[test]
fn test_flow() {
    let flow = Flow {
        table: Arc::new(FlowTable {
            name: "abcd.efg",
            matches: vec![
                FlowMatch { name: "abcd1", value: RANGE(1u32, 2u32) },
                FlowMatch { name: "abcd2", value: EXACT(1u32) },
                FlowMatch { name: "abcd3", value: LPM(1u32, 8) },
                FlowMatch { name: "abcd4", value: TERNARY(1u32, 2u32) },
            ],
        }),
        action: Arc::new(FlowAction {
            name: "Hi",
            params: vec![
                FlowActionParam { name: "abcd5", value: encode(5) },
                FlowActionParam { name: "abcd6", value: encode(1) },
            ],
        }),
        metadata: 0,
        priority: 1,
    };
    assert_eq!(flow.table.name, "abcd.efg");
    assert_eq!(flow.table.matches.len(), 4);
    assert_eq!(flow.action.params.len(), 2);
    assert_eq!(bytes_of(&flow.action.params[0].value), vec![0, 0, 0, 5]);
    assert_eq!(flow.priority, 1);
}
