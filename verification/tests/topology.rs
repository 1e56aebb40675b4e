use redis_cluster::connection::{get_connection_info, ClusterParams, ConnectionAddr, TlsMode};
use redis_cluster::error::{ErrorKind, RedisError};
use redis_cluster::slot_map::{Slot, SlotAddrs};
use redis_cluster::topology::{build_view, calculate_hash, calculate_topology, parse_slots};
use redis_cluster::value::Value;

#[test]
fn parse_cluster_node_host_port() {
    let cases = vec![
        (
            "127.0.0.1:6379",
            ConnectionAddr::Tcp("127.0.0.1".to_string(), 6379u16),
        ),
        (
            "localhost.localdomain:6379",
            ConnectionAddr::Tcp("localhost.localdomain".to_string(), 6379u16),
        ),
        (
            "dead::cafe:beef:30001",
            ConnectionAddr::Tcp("dead::cafe:beef".to_string(), 30001u16),
        ),
        (
            "[fe80::cafe:beef%en1]:30001",
            ConnectionAddr::Tcp("fe80::cafe:beef%en1".to_string(), 30001u16),
        ),
    ];

    for (input, expected) in cases {
        let res = get_connection_info(input, ClusterParams::default());
        assert_eq!(res.unwrap().addr, expected);
    }

    let cases = vec![":0", "[]:6379"];
    for input in cases {
        let res = get_connection_info(input, ClusterParams::default());
        assert_eq!(
            res.err(),
            Some(RedisError::new(
                ErrorKind::InvalidClientConfig,
                "Invalid node string",
            )),
        );
    }
}

fn node(name: &str, port: i64) -> Value {
    Value::Bulk(vec![Value::Data(name.as_bytes().to_vec()), Value::Int(port)])
}

fn range(start: i64, end: i64, name: &str, port: i64) -> Value {
    Value::Bulk(vec![Value::Int(start), Value::Int(end), node(name, port)])
}

#[test]
fn test_topology_calculator() {
    let single_node_view = || Value::Bulk(vec![range(0, 16383, "node1", 6379)]);
    let single_node_missing_slots_view = || Value::Bulk(vec![range(0, 4000, "node1", 6379)]);
    let two_nodes_full_coverage_view = || {
        Value::Bulk(vec![
            range(0, 4000, "node1", 6379),
            range(4001, 16383, "node2", 6380),
        ])
    };
    let two_nodes_missing_slots_view = || {
        Value::Bulk(vec![
            range(0, 3000, "node3", 6381),
            range(4001, 16383, "node4", 6382),
        ])
    };

    // 4 nodes queried (1 error): Has a majority, single_node_view should be chosen
    let mut queried_nodes: usize = 4;
    let topology_results = vec![
        single_node_view(),
        single_node_view(),
        two_nodes_full_coverage_view(),
    ];
    let node1_addr = SlotAddrs::new("node1:6379".to_string(), None);
    let node2_addr = SlotAddrs::new("node2:6380".to_string(), None);
    let topology_view =
        calculate_topology(topology_results, None, None, false, queried_nodes).unwrap();
    let res: Vec<_> = topology_view.values();
    let excepted = vec![&node1_addr];
    assert_eq!(res, excepted);

    // 3 nodes queried: No majority, should return an error
    queried_nodes = 3;
    let topology_results = vec![
        single_node_view(),
        two_nodes_full_coverage_view(),
        two_nodes_missing_slots_view(),
    ];
    let topology_view = calculate_topology(topology_results, None, None, false, queried_nodes);
    assert!(topology_view.is_err());

    // 3 nodes queried:: No majority, last retry, should get the view that has a full slot coverage
    let topology_results = vec![
        single_node_missing_slots_view(),
        two_nodes_full_coverage_view(),
        two_nodes_missing_slots_view(),
    ];
    let topology_view =
        calculate_topology(topology_results, Some(1), None, false, queried_nodes).unwrap();
    let res: Vec<_> = topology_view.values();
    let excepted: Vec<&SlotAddrs> = vec![&node1_addr, &node2_addr];
    assert_eq!(res, excepted);

    //  2 nodes queried: No majority, should get the view that has a full slot coverage
    queried_nodes = 2;
    let topology_results = vec![
        two_nodes_full_coverage_view(),
        two_nodes_missing_slots_view(),
    ];
    let topology_view =
        calculate_topology(topology_results, None, None, false, queried_nodes).unwrap();
    let res: Vec<_> = topology_view.values();
    assert_eq!(res, excepted);
}

fn description(result: Result<redis_cluster::slot_map::SlotMap, RedisError>) -> String {
    result.unwrap_err().description().to_string()
}

#[test]
fn the_view_of_most_nodes_is_installed() {
    let v1 = || Value::Bulk(vec![range(0, 16383, "node1", 6379)]);
    let v2 = || {
        Value::Bulk(vec![
            range(0, 4000, "node1", 6379),
            range(4001, 16383, "node2", 6380),
        ])
    };
    // four nodes queried: three return V1, one returns V2
    let map = calculate_topology(vec![v1(), v2(), v1(), v1()], None, None, false, 4).unwrap();
    assert_eq!(map.values(), vec![&SlotAddrs::new("node1:6379".to_string(), None)]);
    assert_eq!(map.topology_hash(), calculate_hash(&v1()));
    assert_ne!(calculate_hash(&v1()), calculate_hash(&v2()));

    // two and two, with retries left: no majority
    for retries in [None, Some(2), Some(0)] {
        assert_eq!(
            description(calculate_topology(
                vec![v1(), v2(), v2(), v1()],
                retries,
                None,
                false,
                3
            )),
            "Slot refresh error: Couldn't get a majority in topology views"
        );
    }
    // on the last retry the first valid view is chosen
    let map = calculate_topology(vec![v1(), v2(), v2(), v1()], Some(1), None, false, 3).unwrap();
    assert_eq!(map.topology_hash(), calculate_hash(&v1()));
    let map = calculate_topology(vec![v2(), v1(), v2(), v1()], Some(1), None, false, 3).unwrap();
    assert_eq!(map.topology_hash(), calculate_hash(&v2()));
    assert_eq!(map.len(), 2);
}

#[test]
fn a_view_that_too_few_nodes_share_is_refused() {
    let v1 = || Value::Bulk(vec![range(0, 16383, "node1", 6379)]);
    // one of five is a fifth
    assert!(calculate_topology(vec![v1()], None, None, false, 5).is_ok());
    assert_eq!(
        description(calculate_topology(vec![v1()], None, None, false, 6)),
        "Slot refresh error: The accuracy of the topology view is too low"
    );
    assert!(calculate_topology(vec![v1(), v1()], None, None, false, 10).is_ok());
    assert!(calculate_topology(vec![v1(), v1()], None, None, false, 11).is_err());
    assert!(calculate_topology(vec![v1()], None, None, false, 0).is_ok());
    assert_eq!(
        description(calculate_topology(vec![], None, None, false, 3)),
        "Slot refresh error: All CLUSTER SLOTS results are errors"
    );
}

#[test]
fn a_leading_view_must_build_a_map() {
    let broken = || Value::Bulk(vec![range(0, 4000, "node1", 6379)]);
    let full = || Value::Bulk(vec![range(0, 16383, "node1", 6379)]);
    let err = calculate_topology(vec![broken(), broken(), full()], Some(1), None, false, 3)
        .unwrap_err();
    assert_eq!(
        err,
        RedisError::with_detail(
            ErrorKind::ResponseError,
            "Slot refresh error.",
            "Lacks the slots >= 4001".to_string()
        )
    );
    // tied views of which none builds a map
    let other = || Value::Bulk(vec![range(1, 16383, "node1", 6379)]);
    assert_eq!(
        description(calculate_topology(vec![broken(), other()], None, None, false, 2)),
        "Slot refresh error: Couldn't get a majority in topology views"
    );
    // only the leading views are tried
    assert_eq!(
        description(calculate_topology(
            vec![broken(), other(), full(), other(), broken()],
            Some(1),
            None,
            false,
            5
        )),
        "Slot refresh error: Couldn't get a majority in topology views"
    );
}

#[test]
fn entries_of_a_view_that_describe_no_slot_are_skipped() {
    let good = range(5, 9, "h", 1);
    let slots = |items: Vec<Value>| parse_slots(&Value::Bulk(items), None).unwrap();
    let expected = || vec![Slot::new(5, 9, "h:1".to_string(), vec![])];
    assert_eq!(slots(vec![range(5, 9, "h", 1)]), expected());
    let skipped = vec![
        Value::Bulk(vec![Value::Int(0), Value::Int(1)]),
        Value::Bulk(vec![]),
        Value::Bulk(vec![Value::Data(b"0".to_vec()), Value::Int(1), node("h", 1)]),
        Value::Bulk(vec![Value::Int(0), Value::Nil, node("h", 1)]),
        Value::Bulk(vec![Value::Int(0), Value::Int(1), node("", 1)]),
        Value::Bulk(vec![Value::Int(0), Value::Int(1), Value::Int(2)]),
        Value::Bulk(vec![Value::Int(0), Value::Int(1), Value::Bulk(vec![Value::Data(b"h".to_vec())])]),
        Value::Bulk(vec![
            Value::Int(0),
            Value::Int(1),
            Value::Bulk(vec![Value::Data(b"h".to_vec()), Value::Data(b"1".to_vec())]),
        ]),
        Value::Bulk(vec![
            Value::Int(0),
            Value::Int(1),
            Value::Bulk(vec![Value::Status("h".to_string()), Value::Int(1)]),
        ]),
    ];
    for entry in skipped {
        assert_eq!(slots(vec![entry, range(5, 9, "h", 1)]), expected());
    }
    // an entry that is no array is skipped, and reading goes on
    assert_eq!(
        slots(vec![good, Value::Nil, range(10, 11, "h", 1)]),
        vec![
            Slot::new(5, 9, "h:1".to_string(), vec![]),
            Slot::new(10, 11, "h:1".to_string(), vec![])
        ]
    );
    assert_eq!(
        slots(vec![Value::Nil, range(0, 16383, "node1", 6379)]),
        vec![Slot::new(0, 16383, "node1:6379".to_string(), vec![])]
    );
    assert_eq!(slots(vec![Value::Okay, Value::Int(1)]), vec![]);
    assert_eq!(parse_slots(&Value::Nil, None), Ok(vec![]));
    assert_eq!(parse_slots(&Value::Int(3), Some(TlsMode::Secure)), Ok(vec![]));
    assert_eq!(slots(vec![]), vec![]);
}

#[test]
fn the_first_usable_node_is_the_primary() {
    let entry = Value::Bulk(vec![
        Value::Int(0),
        Value::Int(16383),
        node("", 1),
        Value::Nil,
        Value::Bulk(vec![
            Value::Data(b"10.0.0.1".to_vec()),
            Value::Int(6379),
            Value::Data(b"id".to_vec()),
        ]),
        node("r1", 7000),
        Value::Int(5),
        node("r2", 7001),
    ]);
    assert_eq!(
        parse_slots(&Value::Bulk(vec![entry]), Some(TlsMode::Insecure)),
        Ok(vec![Slot::new(
            0,
            16383,
            "10.0.0.1:6379".to_string(),
            vec!["r1:7000".to_string(), "r2:7001".to_string()]
        )])
    );
}

#[test]
fn numbers_of_a_view_must_be_in_range() {
    let slots = |entry: Value| parse_slots(&Value::Bulk(vec![entry]), None).unwrap();
    for (start, end) in [
        (65536, 16383),
        (16384, 16384),
        (0, 16384),
        (-1, 5),
        (0, -1),
        (65536 + 5, 10),
        (i64::MIN, 0),
        (0, i64::MAX),
    ] {
        assert_eq!(slots(range(start, end, "node1", 6379)), vec![]);
    }
    assert_eq!(
        slots(range(16383, 0, "h", 65535)),
        vec![Slot::new(16383, 0, "h:65535".to_string(), vec![])]
    );
    // a node whose port is out of range is no node
    for port in [-1, 65536, 65536 + 80, i64::MAX] {
        assert_eq!(slots(range(0, 5, "h", port)), vec![]);
        let entry = Value::Bulk(vec![
            Value::Int(0),
            Value::Int(5),
            node("h", port),
            node("r", 0),
        ]);
        assert_eq!(slots(entry), vec![Slot::new(0, 5, "r:0".to_string(), vec![])]);
    }
}

#[test]
fn a_host_is_read_as_text() {
    let with_host = |host: &[u8]| {
        let entry = Value::Bulk(vec![
            Value::Int(0),
            Value::Int(1),
            Value::Bulk(vec![Value::Data(host.to_vec()), Value::Int(1)]),
        ]);
        parse_slots(&Value::Bulk(vec![entry]), None).unwrap()[0]
            .master()
            .to_string()
    };
    assert_eq!(with_host(b"node1"), "node1:1");
    assert_eq!(with_host("h\u{e9}te".as_bytes()), "h\u{e9}te:1");
    assert_eq!(with_host(b"a\xffb"), "a\u{fffd}b:1");
    assert_eq!(with_host(b"\xf0\x9f"), "\u{fffd}:1");
}

#[test]
fn a_slot_written_as_an_entry_is_read_back() {
    for (start, end) in [(0u16, 0u16), (0, 16383), (7, 3), (16383, 16383), (100, 200)] {
        for hosts in [vec!["p"], vec!["p", "r"], vec!["10.0.0.1", "::1", "h\u{f6}st", "x"]] {
            let ports: Vec<u16> = (0..hosts.len() as u16).map(|i| i * 21845).collect();
            let mut entry = vec![Value::Int(start as i64), Value::Int(end as i64)];
            for (host, port) in hosts.iter().zip(&ports) {
                entry.push(node(host, *port as i64));
            }
            let addrs: Vec<String> = hosts
                .iter()
                .zip(&ports)
                .map(|(h, p)| format!("{}:{}", h, p))
                .collect();
            assert_eq!(
                parse_slots(&Value::Bulk(vec![Value::Bulk(entry)]), None),
                Ok(vec![Slot::new(start, end, addrs[0].clone(), addrs[1..].to_vec())])
            );
        }
    }
}

#[test]
fn the_hash_of_a_value_tells_its_structure() {
    let values = vec![
        Value::Nil,
        Value::Okay,
        Value::Int(0),
        Value::Int(-1),
        Value::Int(1 << 40),
        Value::Data(vec![]),
        Value::Data(vec![0]),
        Value::Data(b"a".to_vec()),
        Value::Status("a".to_string()),
        Value::Status("".to_string()),
        Value::Bulk(vec![]),
        Value::Bulk(vec![Value::Nil]),
        Value::Bulk(vec![Value::Nil, Value::Nil]),
        Value::Bulk(vec![Value::Bulk(vec![Value::Nil]), Value::Nil]),
        Value::Bulk(vec![Value::Bulk(vec![Value::Nil, Value::Nil])]),
        Value::Bulk(vec![Value::Data(b"ab".to_vec()), Value::Data(b"c".to_vec())]),
        Value::Bulk(vec![Value::Data(b"a".to_vec()), Value::Data(b"bc".to_vec())]),
    ];
    for (i, a) in values.iter().enumerate() {
        assert_eq!(calculate_hash(a), calculate_hash(&a.duplicate()));
        assert_eq!(a, &a.duplicate());
        for b in &values[i + 1..] {
            assert_ne!(calculate_hash(a), calculate_hash(b));
        }
    }
}

#[test]
fn a_view_is_built_into_a_map_with_its_hash() {
    let view = Value::Bulk(vec![range(0, 16383, "node1", 6379)]);
    let map = build_view(&view, 77, None, false).unwrap();
    assert_eq!(map.topology_hash(), 77);
    assert_eq!(map.slots(), vec![Slot::new(0, 16383, "node1:6379".to_string(), vec![])]);
    assert!(build_view(&Value::Nil, 77, None, false).is_err());
}
