use redis_cluster::error::{ErrorKind, RedisError};
use redis_cluster::routing::{MultipleNodeRoutingInfo, Route, SlotAddr};
use redis_cluster::slot_map::{build_slot_map, Slot, SlotAddrs, SlotMap};

fn slot(start: u16, end: u16, master: &str, replicas: &[&str]) -> Slot {
    Slot::new(
        start,
        end,
        master.to_string(),
        replicas.iter().map(|r| r.to_string()).collect(),
    )
}

fn refresh_error(detail: &str) -> RedisError {
    RedisError::with_detail(
        ErrorKind::ResponseError,
        "Slot refresh error.",
        detail.to_string(),
    )
}

#[test]
fn slots_are_installed_in_order_of_start() {
    let mut map = SlotMap::new();
    let given = vec![
        slot(8001, 16383, "c:3", &[]),
        slot(0, 4000, "a:1", &["r:9"]),
        slot(4001, 8000, "b:2", &[]),
    ];
    assert_eq!(build_slot_map(&mut map, given, false), Ok(()));
    assert_eq!(
        map.slots(),
        vec![
            slot(0, 4000, "a:1", &["r:9"]),
            slot(4001, 8000, "b:2", &[]),
            slot(8001, 16383, "c:3", &[]),
        ]
    );
    assert_eq!(map.len(), 3);
    let values: Vec<&SlotAddrs> = map.values();
    assert_eq!(values[0], &SlotAddrs::new("a:1".to_string(), None));
    assert_eq!(values[2], &SlotAddrs::new("c:3".to_string(), None));
}

#[test]
fn building_again_from_built_slots_changes_nothing() {
    let mut map = SlotMap::new();
    let given = vec![
        slot(4001, 16383, "b:2", &["x:1", "y:2"]),
        slot(0, 4000, "a:1", &[]),
    ];
    build_slot_map(&mut map, given, false).unwrap();
    let once = map.slots();
    let mut again = SlotMap::new();
    build_slot_map(&mut again, map.slots(), false).unwrap();
    assert_eq!(again.slots(), once);
}

#[test]
fn every_slot_has_exactly_one_primary() {
    let mut map = SlotMap::new();
    build_slot_map(
        &mut map,
        vec![
            slot(0, 0, "a:1", &[]),
            slot(1, 16382, "b:2", &[]),
            slot(16383, 16383, "c:3", &[]),
        ],
        false,
    )
    .unwrap();
    for s in 0..16384u16 {
        let expected = if s == 0 {
            "a:1"
        } else if s == 16383 {
            "c:3"
        } else {
            "b:2"
        };
        assert_eq!(
            map.slot_addr_for_route(&Route::new(s, SlotAddr::Master)),
            Some(expected)
        );
        let holders = map
            .slots()
            .iter()
            .filter(|r| r.start() <= s && s <= r.end())
            .count();
        assert_eq!(holders, 1);
    }
    assert_eq!(map.slot_addr_for_route(&Route::new(16384, SlotAddr::Master)), None);
    assert_eq!(map.slot_addr_for_route(&Route::new(65535, SlotAddr::Master)), None);
    assert_eq!(
        SlotMap::new().slot_addr_for_route(&Route::new(0, SlotAddr::Master)),
        None
    );
}

#[test]
fn slots_that_overlap_or_leave_gaps_are_refused() {
    let mut map = SlotMap::new();
    build_slot_map(&mut map, vec![slot(0, 16383, "a:1", &[])], false).unwrap();

    assert_eq!(
        build_slot_map(
            &mut map,
            vec![slot(0, 4000, "a:1", &[]), slot(4000, 16383, "b:2", &[])],
            false
        ),
        Err(refresh_error("Received overlapping slots 4001 and 4000..16383"))
    );
    assert_eq!(
        build_slot_map(
            &mut map,
            vec![slot(4002, 16383, "b:2", &[]), slot(0, 4000, "a:1", &[])],
            false
        ),
        Err(refresh_error("Received overlapping slots 4001 and 4002..16383"))
    );
    assert_eq!(
        build_slot_map(&mut map, vec![slot(1, 16383, "a:1", &[])], false),
        Err(refresh_error("Received overlapping slots 0 and 1..16383"))
    );
    assert_eq!(
        build_slot_map(&mut map, vec![slot(0, 4000, "a:1", &[])], false),
        Err(refresh_error("Lacks the slots >= 4001"))
    );
    assert_eq!(
        build_slot_map(&mut map, vec![], false),
        Err(refresh_error("Lacks the slots >= 0"))
    );
    assert_eq!(
        build_slot_map(&mut map, vec![slot(0, 65535, "a:1", &[])], false),
        Err(refresh_error("Lacks the slots >= 65536"))
    );
    assert_eq!(
        build_slot_map(
            &mut map,
            vec![slot(0, 65535, "a:1", &[]), slot(0, 16383, "a:1", &[])],
            false
        ),
        Err(refresh_error("Received overlapping slots 65536 and 0..16383"))
    );
    // the map is as it was
    assert_eq!(map.slots(), vec![slot(0, 16383, "a:1", &[])]);
}

#[test]
fn a_replica_serves_reads_only_where_reads_from_replicas_are_on() {
    let given = || vec![slot(0, 16383, "a:1", &["r:1", "r:2"])];
    let mut map = SlotMap::new();
    build_slot_map(&mut map, given(), false).unwrap();
    for addr in [SlotAddr::Master, SlotAddr::ReplicaOptional, SlotAddr::ReplicaRequired] {
        assert_eq!(map.slot_addr_for_route(&Route::new(7, addr)), Some("a:1"));
    }
    let mut seen = Vec::new();
    for _ in 0..200 {
        let mut map = SlotMap::new();
        build_slot_map(&mut map, given(), true).unwrap();
        assert_eq!(
            map.slot_addr_for_route(&Route::new(7, SlotAddr::Master)),
            Some("a:1")
        );
        let replica = map
            .slot_addr_for_route(&Route::new(7, SlotAddr::ReplicaOptional))
            .unwrap()
            .to_string();
        assert!(replica == "r:1" || replica == "r:2");
        assert_eq!(
            map.slot_addr_for_route(&Route::new(7, SlotAddr::ReplicaRequired)),
            Some(replica.as_str())
        );
        if !seen.contains(&replica) {
            seen.push(replica);
        }
    }
    assert_eq!(seen.len(), 2);
    // without replicas the primary stands in
    let mut map = SlotMap::new();
    build_slot_map(&mut map, vec![slot(0, 16383, "a:1", &[])], true).unwrap();
    assert_eq!(
        map.slot_addr_for_route(&Route::new(7, SlotAddr::ReplicaOptional)),
        Some("a:1")
    );
}

#[test]
fn addresses_of_a_choice() {
    let s = slot(0, 5, "a:1", &["r:1", "r:2"]);
    assert_eq!(
        SlotAddrs::from_slot_choice(&s, true, 1),
        SlotAddrs::new("a:1".to_string(), Some("r:2".to_string()))
    );
    assert_eq!(
        SlotAddrs::from_slot_choice(&s, false, 1),
        SlotAddrs::new("a:1".to_string(), None)
    );
    let addrs = SlotAddrs::from_slot_choice(&s, true, 0);
    assert_eq!(addrs.primary(), "a:1");
    assert_eq!(addrs.replica(), "r:1");
    assert_eq!(addrs.slot_addr(SlotAddr::Master), "a:1");
    assert_eq!(addrs.slot_addr(SlotAddr::ReplicaOptional), "r:1");
    assert_eq!(addrs.slot_addr(SlotAddr::ReplicaRequired), "r:1");
    assert_eq!(s.master(), "a:1");
    assert_eq!(s.replicas(), &vec!["r:1".to_string(), "r:2".to_string()]);
}

#[test]
fn addresses_for_several_nodes() {
    let mut map = SlotMap::new();
    build_slot_map(
        &mut map,
        vec![
            slot(0, 100, "a:1", &["r:1"]),
            slot(101, 200, "b:2", &["r:1", "a:1"]),
            slot(201, 16383, "a:1", &["r:3"]),
        ],
        false,
    )
    .unwrap();
    assert_eq!(map.addresses_for_all_primaries(), vec!["a:1", "b:2"]);
    assert_eq!(map.addresses_for_all_nodes(), vec!["a:1", "r:1", "b:2", "r:3"]);
    let routes = vec![
        (Route::new(150, SlotAddr::Master), vec![0]),
        (Route::new(20000, SlotAddr::Master), vec![1]),
        (Route::new(5, SlotAddr::ReplicaOptional), vec![2]),
        (Route::new(160, SlotAddr::Master), vec![3]),
    ];
    assert_eq!(
        map.addresses_for_multi_slot(&routes),
        vec![
            Some("b:2".to_string()),
            None,
            Some("a:1".to_string()),
            Some("b:2".to_string())
        ]
    );
    assert_eq!(
        map.addresses_for_multi_routing(&MultipleNodeRoutingInfo::MultiSlot(routes)),
        vec!["b:2", "a:1"]
    );
    assert_eq!(
        map.addresses_for_multi_routing(&MultipleNodeRoutingInfo::AllMasters),
        vec!["a:1", "b:2"]
    );
    assert_eq!(
        map.addresses_for_multi_routing(&MultipleNodeRoutingInfo::AllNodes),
        vec!["a:1", "r:1", "b:2", "r:3"]
    );
    let mut empty = SlotMap::new();
    assert!(empty.addresses_for_all_nodes().is_empty());
    empty.set_topology_hash(9);
    empty.clear();
    assert_eq!(empty.topology_hash(), 9);
}

#[test]
fn every_slot_lies_in_one_of_the_ranges_as_they_were_given() {
    let given = || {
        vec![
            slot(12001, 16383, "d:4", &["r:9"]),
            slot(0, 100, "a:1", &[]),
            slot(5000, 12000, "c:3", &[]),
            slot(101, 4999, "b:2", &["s:8", "t:7"]),
        ]
    };
    let mut map = SlotMap::new();
    assert_eq!(build_slot_map(&mut map, given(), false), Ok(()));
    let given = given();
    for s in 0..16384u16 {
        let holders: Vec<&Slot> = given
            .iter()
            .filter(|r| r.start() <= s && s <= r.end())
            .collect();
        assert_eq!(holders.len(), 1);
        assert_eq!(
            map.slot_addr_for_route(&Route::new(s, SlotAddr::Master)),
            Some(holders[0].master())
        );
    }
}
