use redis_cluster::container::{
    ClusterNode, ConnectionType, ConnectionsContainer, ConnectionsMap, NodeIp,
};
use redis_cluster::error::{ErrorKind, RedisError};
use redis_cluster::factory::{
    check_node_connections, checks_management, checks_user, connect_and_check,
    connect_and_check_all_connections, connect_and_check_only_management_conn,
    failed_to_refresh_all, get_or_create_conn, has_dns_changed, management_conn_name,
    management_follows_user, refresh_connections, refresh_failed, same_ip, settle_pair,
    ConnectPlan, ConnectSteps, ManagementPlan, PairPlan, RefreshConnectionType, RefreshPlan,
};
use redis_cluster::routing::{Route, SlotAddr};
use redis_cluster::slot_map::{build_slot_map, Slot, SlotMap};
use redis_cluster::supervisor::{
    after_failed_refresh, check_delay_with, check_for_topology_diff, create_initial_connections,
    get_topology_values_and_failed_conn, install_topology, next_check_delay, node_for_addresses,
    nodes_to_check, nodes_to_refresh_from, periodic_topology_check, retries_left,
    SupervisorAction, TopologyRefresh,
};
use redis_cluster::topology::{calculate_hash, calculate_topology};
use redis_cluster::value::Value;

fn holder(read_from_replicas: bool) -> ConnectionsContainer<&'static str> {
    let mut nodes = ConnectionsMap::new();
    nodes.insert("a:1".to_string(), ClusterNode::new("user a", Some("mgmt a"), None));
    nodes.insert("r:1".to_string(), ClusterNode::new("user r", None, None));
    nodes.insert("b:2".to_string(), ClusterNode::new("user b", Some("mgmt b"), None));
    let mut slots = SlotMap::new();
    build_slot_map(
        &mut slots,
        vec![
            Slot::new(0, 5000, "a:1".to_string(), vec!["r:1".to_string()]),
            Slot::new(5001, 13000, "b:2".to_string(), vec!["q:2".to_string()]),
            Slot::new(13001, 16383, "c:3".to_string(), vec![]),
        ],
        read_from_replicas,
    )
    .unwrap();
    ConnectionsContainer::new(slots, nodes, read_from_replicas, 42)
}

fn view(ranges: &[(i64, i64, &str, i64)]) -> Value {
    Value::Bulk(
        ranges
            .iter()
            .map(|(start, end, host, port)| {
                Value::Bulk(vec![
                    Value::Int(*start),
                    Value::Int(*end),
                    Value::Bulk(vec![Value::Data(host.as_bytes().to_vec()), Value::Int(*port)]),
                ])
            })
            .collect(),
    )
}

#[test]
fn a_connection_is_found_by_address_and_by_route() {
    let holder = holder(true);
    assert_eq!(holder.len(), 3);
    assert!(!holder.is_empty());
    assert_eq!(holder.get_current_topology_hash(), 42);
    assert_eq!(holder.slot_map().len(), 3);
    assert_eq!(
        holder.connection_for_address("b:2"),
        Some(("b:2".to_string(), &"user b"))
    );
    assert_eq!(holder.connection_for_address("c:3"), None);
    assert_eq!(holder.address_for_identifier("r:1"), Some("r:1".to_string()));
    assert_eq!(holder.address_for_identifier("x"), None);
    assert_eq!(holder.node_for_address("a:1").unwrap().management_connection, Some("mgmt a"));
    assert!(holder.node_for_address("q:2").is_none());
    let route = |slot, addr| Route::new(slot, addr);
    assert_eq!(
        holder.connection_for_route(&route(10, SlotAddr::Master)),
        Some(("a:1".to_string(), &"user a"))
    );
    assert_eq!(
        holder.connection_for_route(&route(10, SlotAddr::ReplicaOptional)),
        Some(("r:1".to_string(), &"user r"))
    );
    // the replica q:2 is not connected: the primary serves
    assert_eq!(
        holder.connection_for_route(&route(6000, SlotAddr::ReplicaOptional)),
        Some(("b:2".to_string(), &"user b"))
    );
    assert_eq!(
        holder.connection_for_route(&route(6000, SlotAddr::ReplicaRequired)),
        Some(("b:2".to_string(), &"user b"))
    );
    assert_eq!(holder.connection_for_route(&route(14000, SlotAddr::Master)), None);
    assert_eq!(holder.connection_for_route(&route(14000, SlotAddr::ReplicaOptional)), None);
    assert_eq!(holder.connection_for_route(&route(16384, SlotAddr::Master)), None);
    assert_eq!(
        holder.all_node_connections(),
        vec![
            ("a:1".to_string(), &"user a"),
            ("r:1".to_string(), &"user r"),
            ("b:2".to_string(), &"user b")
        ]
    );
    assert_eq!(
        holder.all_primary_connections(),
        vec![("a:1".to_string(), &"user a"), ("b:2".to_string(), &"user b")]
    );
}

#[test]
fn a_node_is_replaced_at_its_address() {
    let mut holder = holder(false);
    assert_eq!(
        holder.replace_or_add_connection_for_address(
            "r:1".to_string(),
            ClusterNode::new("new r", None, Some(NodeIp::V4(1)))
        ),
        "r:1"
    );
    assert_eq!(holder.len(), 3);
    assert_eq!(holder.all_node_connections()[1], ("r:1".to_string(), &"new r"));
    holder.replace_or_add_connection_for_address("c:3".to_string(), ClusterNode::new("c", None, None));
    assert_eq!(holder.len(), 4);
    assert_eq!(holder.all_node_connections()[3], ("c:3".to_string(), &"c"));
    let removed = holder.remove_node("a:1").unwrap();
    assert_eq!(removed.user_connection, "user a");
    assert!(holder.remove_node("a:1").is_none());
    assert_eq!(
        holder.all_node_connections(),
        vec![
            ("r:1".to_string(), &"new r"),
            ("b:2".to_string(), &"user b"),
            ("c:3".to_string(), &"c")
        ]
    );
    assert_eq!(holder.get_current_topology_hash(), 42);
    let mut map: ConnectionsMap<u8> = ConnectionsMap::new();
    assert!(map.is_empty());
    map.insert("x".to_string(), ClusterNode::new(1, None, None));
    map.insert("x".to_string(), ClusterNode::new(2, None, None));
    assert_eq!(map.len(), 1);
    map.insert("y".to_string(), ClusterNode::new(3, None, None));
    map.insert("z".to_string(), ClusterNode::new(4, None, None));
    let kept = map.retain_addresses(&vec!["z".to_string(), "q".to_string(), "x".to_string()]);
    let kept = ConnectionsContainer::new(SlotMap::new(), kept, false, 0);
    assert_eq!(
        kept.all_node_connections(),
        vec![("x".to_string(), &2), ("z".to_string(), &4)]
    );
}

#[test]
fn random_connections_are_of_distinct_nodes() {
    let holder = holder(false);
    // where every node has a management connection, none is passed over
    let mut all_managed = ConnectionsMap::new();
    all_managed.insert("a:1".to_string(), ClusterNode::new("user a", Some("mgmt a"), None));
    all_managed.insert("b:2".to_string(), ClusterNode::new("user b", Some("mgmt b"), None));
    let managed = ConnectionsContainer::new(SlotMap::new(), all_managed, false, 0);
    let mut seen = Vec::new();
    for _ in 0..300 {
        for amount in 0..5 {
            let picked = holder.random_connections(amount, ConnectionType::User);
            assert_eq!(picked.len(), amount.min(3));
            for (i, (addr, conn)) in picked.iter().enumerate() {
                assert_eq!(holder.connection_for_address(addr), Some((addr.clone(), *conn)));
                assert!(picked[..i].iter().all(|(other, _)| other != addr));
            }
            if amount == 1 && !seen.contains(&picked[0].0) {
                seen.push(picked[0].0.clone());
            }
        }
        let picked = holder.random_connections(3, ConnectionType::PreferManagement);
        assert_eq!(picked.len(), 3);
        for (addr, conn) in &picked {
            let expected = match addr.as_str() {
                "a:1" => "mgmt a",
                "b:2" => "mgmt b",
                _ => "user r",
            };
            assert_eq!(**conn, expected);
        }
        let picked = holder.random_connections(3, ConnectionType::Management);
        assert_eq!(picked.len(), 2);
        assert_eq!(managed.random_connections(5, ConnectionType::Management).len(), 2);
        assert_eq!(managed.random_connections(1, ConnectionType::Management).len(), 1);
        assert!(picked.iter().all(|(addr, conn)| {
            (addr == "a:1" && **conn == "mgmt a") || (addr == "b:2" && **conn == "mgmt b")
        }));
    }
    assert_eq!(seen.len(), 3);
    let node = ClusterNode::new(1, Some(2), None);
    assert_eq!(node.get_connection(ConnectionType::User), Some(&1));
    assert_eq!(node.get_connection(ConnectionType::Management), Some(&2));
    assert_eq!(node.get_connection(ConnectionType::PreferManagement), Some(&2));
    let node = ClusterNode::new(1, None, None);
    assert_eq!(node.get_connection(ConnectionType::Management), None);
    assert_eq!(node.get_connection(ConnectionType::PreferManagement), Some(&1));
}

#[test]
fn how_many_nodes_are_asked() {
    let expected = [
        (0, 1),
        (1, 1),
        (2, 1),
        (3, 1),
        (4, 2),
        (7, 2),
        (8, 3),
        (1023, 9),
        (1024, 10),
        (usize::MAX, usize::BITS as usize - 1),
    ];
    for (nodes, sample) in expected {
        assert_eq!(nodes_to_check(nodes), sample);
    }
    assert_eq!(retries_left(0), 3);
    assert_eq!(retries_left(1), 2);
    assert_eq!(retries_left(2), 1);
    assert_eq!(retries_left(3), 1);
    assert_eq!(retries_left(usize::MAX), 1);
    assert_eq!(nodes_to_refresh_from(0), 0);
    assert_eq!(nodes_to_refresh_from(49), 49);
    assert_eq!(nodes_to_refresh_from(50), 50);
    assert_eq!(nodes_to_refresh_from(51), 50);
    let mut spread = false;
    for _ in 0..200 {
        let delay = next_check_delay(5000);
        assert!((5000..6000).contains(&delay));
        spread |= delay != 5000;
        assert_eq!(next_check_delay(u64::MAX), u64::MAX);
    }
    assert!(spread);
    assert_eq!(check_delay_with(5000, 0), 5000);
    assert_eq!(check_delay_with(5000, 999), 5999);
    assert_eq!(check_delay_with(u64::MAX - 5, 5), u64::MAX);
    assert_eq!(check_delay_with(u64::MAX - 5, 6), u64::MAX);
    assert_eq!(check_delay_with(0, 0), 0);
}

#[test]
fn replies_to_a_round_of_sampling_are_sorted() {
    let replies = vec![
        ("a:1".to_string(), Ok(Value::Int(1))),
        ("b:2".to_string(), Err(RedisError::new(ErrorKind::IoError, "gone"))),
        ("c:3".to_string(), Err(RedisError::from_server_line("ERR no"))),
        ("d:4".to_string(), Ok(Value::Int(2))),
        ("e:5".to_string(), Err(RedisError::new(ErrorKind::IoError, "gone"))),
    ];
    assert_eq!(
        get_topology_values_and_failed_conn(replies),
        (
            vec![Value::Int(1), Value::Int(2)],
            vec!["b:2".to_string(), "e:5".to_string()]
        )
    );
    assert_eq!(get_topology_values_and_failed_conn(vec![]), (vec![], vec![]));
}

#[test]
fn a_check_tells_whether_the_topology_has_changed() {
    let installed = view(&[(0, 16383, "a", 1)]);
    let changed = view(&[(0, 100, "a", 1), (101, 16383, "b", 2)]);
    let hash = calculate_hash(&installed);
    let failed = || vec!["x:1".to_string()];
    assert_eq!(
        check_for_topology_diff(hash, vec![installed.duplicate()], failed(), None, 1, false),
        Ok((TopologyRefresh::Unrequired, failed()))
    );
    assert_eq!(
        check_for_topology_diff(hash, vec![changed.duplicate()], vec![], None, 1, false),
        Ok((TopologyRefresh::Required, vec![]))
    );
    assert_eq!(
        check_for_topology_diff(hash, vec![], failed(), None, 1, false),
        Ok((TopologyRefresh::Unrequired, failed()))
    );
    assert_eq!(
        check_for_topology_diff(hash, vec![], vec![], None, 1, false)
            .unwrap_err()
            .description(),
        "Slot refresh error: All CLUSTER SLOTS results are errors"
    );
    // a tie is settled as on a last retry
    assert_eq!(
        check_for_topology_diff(
            hash,
            vec![changed.duplicate(), installed.duplicate(), Value::Nil],
            vec![],
            None,
            3,
            false
        ),
        Ok((TopologyRefresh::Required, vec![]))
    );
    assert!(check_for_topology_diff(hash, vec![Value::Nil], vec![], None, 1, false).is_err());
}

#[test]
fn what_follows_a_periodic_check() {
    let names = |a: &[&str]| a.iter().map(|s| s.to_string()).collect::<Vec<String>>();
    assert_eq!(
        periodic_topology_check(TopologyRefresh::Required, names(&["a"]), names(&["b"])),
        (SupervisorAction::RefreshSlots, names(&["b"]))
    );
    assert_eq!(
        periodic_topology_check(TopologyRefresh::Unrequired, names(&["a"]), names(&["b", "c"])),
        (SupervisorAction::Reconnect(names(&["a", "b", "c"])), vec![])
    );
    assert_eq!(
        periodic_topology_check(TopologyRefresh::Unrequired, vec![], vec![]),
        (SupervisorAction::Idle, vec![])
    );
    assert_eq!(after_failed_refresh(vec![]), SupervisorAction::Idle);
    assert_eq!(
        after_failed_refresh(names(&["a"])),
        SupervisorAction::Reconnect(names(&["a"]))
    );
}

#[test]
fn a_refreshed_topology_is_installed_with_the_hash_of_its_view() {
    let chosen = view(&[(0, 100, "a", 1), (101, 16383, "b", 2)]);
    let other = view(&[(0, 16383, "a", 1)]);
    let slots = calculate_topology(
        vec![chosen.duplicate(), other, chosen.duplicate()],
        None,
        None,
        false,
        3,
    )
    .unwrap();
    assert_eq!(slots.addresses_for_all_nodes(), vec!["a:1", "b:2"]);
    let old = holder(false);
    let resolved = vec!["9.9.9.9:1".to_string(), "r:1".to_string()];
    assert_eq!(node_for_addresses(&old, "a:1", &resolved).unwrap().user_connection, "user a");
    assert_eq!(node_for_addresses(&old, "name:1", &resolved).unwrap().user_connection, "user r");
    assert!(node_for_addresses(&old, "name:1", &vec![]).is_none());
    let mut nodes = ConnectionsMap::new();
    nodes.insert("gone:1".to_string(), ClusterNode::new("user gone", None, None));
    nodes.insert("a:1".to_string(), ClusterNode::new("user a", None, None));
    nodes.insert("left:9".to_string(), ClusterNode::new("user left", None, None));
    let installed = install_topology(slots, nodes, false);
    assert_eq!(installed.get_current_topology_hash(), calculate_hash(&chosen));
    // only the nodes that the new slot map names are kept
    assert_eq!(installed.all_node_connections(), vec![("a:1".to_string(), &"user a")]);
    assert_eq!(installed.len(), 1);
    assert_eq!(
        installed.connection_for_route(&Route::new(100, SlotAddr::Master)),
        Some(("a:1".to_string(), &"user a"))
    );
}

#[test]
fn the_client_starts_with_the_nodes_it_could_connect_to() {
    let failure = |s: &str| RedisError::with_detail(ErrorKind::IoError, "refused", s.to_string());
    let map = create_initial_connections(vec![
        Err(failure("first")),
        Ok(("a:1".to_string(), ClusterNode::new(1u8, None, None))),
        Ok(("b:2".to_string(), ClusterNode::new(2u8, None, None))),
        Ok(("a:1".to_string(), ClusterNode::new(3u8, None, None))),
        Err(failure("last")),
    ])
    .unwrap();
    assert_eq!(map.len(), 2);
    let holder = ConnectionsContainer::new(SlotMap::new(), map, false, 0);
    assert_eq!(
        holder.all_node_connections(),
        vec![("a:1".to_string(), &3), ("b:2".to_string(), &2)]
    );
    assert_eq!(
        create_initial_connections::<u8>(vec![Err(failure("first")), Err(failure("last"))])
            .unwrap_err(),
        RedisError::with_detail(
            ErrorKind::IoError,
            "Failed to create initial connections",
            "refused: last".to_string()
        )
    );
    assert_eq!(
        create_initial_connections::<u8>(vec![]).unwrap_err(),
        RedisError::with_detail(
            ErrorKind::IoError,
            "Failed to create initial connections",
            "".to_string()
        )
    );
}

#[test]
fn which_connections_of_a_node_are_made_anew() {
    let (user_only, management_only, both) = (
        RefreshConnectionType::OnlyUserConnection,
        RefreshConnectionType::OnlyManagementConnection,
        RefreshConnectionType::AllConnections,
    );
    assert_eq!(check_node_connections(user_only, true, false), None);
    assert_eq!(
        check_node_connections(user_only, false, true),
        Some(user_only)
    );
    assert_eq!(check_node_connections(management_only, false, true), None);
    assert_eq!(
        check_node_connections(management_only, true, false),
        Some(management_only)
    );
    assert_eq!(check_node_connections(both, true, true), None);
    assert_eq!(
        check_node_connections(both, true, false),
        Some(management_only)
    );
    assert_eq!(
        check_node_connections(both, false, true),
        Some(user_only)
    );
    assert_eq!(check_node_connections(both, false, false), Some(both));
    assert!(checks_user(both) && checks_user(user_only));
    assert!(!checks_user(management_only));
    assert!(checks_management(both) && checks_management(management_only));
    assert!(!checks_management(user_only));

    assert_eq!(
        get_or_create_conn(false, true, Some(both), user_only),
        ConnectPlan::Fresh(user_only)
    );
    assert_eq!(
        get_or_create_conn(true, true, None, user_only),
        ConnectPlan::Fresh(both)
    );
    assert_eq!(get_or_create_conn(true, false, None, user_only), ConnectPlan::Keep);
    assert_eq!(
        get_or_create_conn(true, false, Some(management_only), both),
        ConnectPlan::Renew(management_only)
    );

    assert_eq!(connect_and_check(user_only, false), ConnectSteps::UserOnly);
    assert_eq!(connect_and_check(user_only, true), ConnectSteps::UserOnly);
    assert_eq!(connect_and_check(management_only, true), ConnectSteps::ManagementOnly);
    assert_eq!(connect_and_check(management_only, false), ConnectSteps::Both);
    assert_eq!(connect_and_check(both, true), ConnectSteps::Both);

    assert_eq!(refresh_connections(false, true, both), RefreshPlan::Unknown);
    assert_eq!(
        refresh_connections(true, true, management_only),
        RefreshPlan::Refresh(management_only)
    );
    assert_eq!(
        refresh_connections(true, false, user_only),
        RefreshPlan::Refresh(both)
    );
    assert_eq!(refresh_connections(true, false, management_only), RefreshPlan::Gone);
    assert_eq!(
        refresh_connections(true, false, both),
        RefreshPlan::Refresh(both)
    );
    assert!(refresh_failed(false, true, user_only));
    assert!(!refresh_failed(true, false, user_only));
    assert!(refresh_failed(true, false, management_only));
    assert!(refresh_failed(true, false, both));
    assert!(!refresh_failed(true, true, both));
    assert_eq!(management_conn_name(), "management");
}

#[test]
fn what_becomes_of_new_connections() {
    let v4 = |n| Some(NodeIp::V4(n));
    assert_eq!(
        connect_and_check_all_connections(Some(v4(1)), Some(v4(1))),
        PairPlan::UserAndManagement
    );
    assert_eq!(
        connect_and_check_all_connections(Some(None), Some(None)),
        PairPlan::UserAndManagement
    );
    assert_eq!(
        connect_and_check_all_connections(Some(v4(1)), Some(v4(2))),
        PairPlan::ResolveFirst(NodeIp::V4(1))
    );
    assert_eq!(
        connect_and_check_all_connections(Some(v4(1)), Some(None)),
        PairPlan::ResolveFirst(NodeIp::V4(1))
    );
    assert_eq!(
        connect_and_check_all_connections(Some(None), Some(v4(2))),
        PairPlan::OnlySecond
    );
    assert_eq!(connect_and_check_all_connections(Some(v4(1)), None), PairPlan::OnlyFirst);
    assert_eq!(connect_and_check_all_connections(None, Some(None)), PairPlan::OnlySecond);
    assert_eq!(connect_and_check_all_connections(None, None), PairPlan::Fail);
    assert_eq!(settle_pair(true), PairPlan::OnlySecond);
    assert_eq!(settle_pair(false), PairPlan::OnlyFirst);
    assert_eq!(
        connect_and_check_only_management_conn(Some(v4(1)), v4(1)),
        ManagementPlan::UseForManagement
    );
    assert_eq!(
        connect_and_check_only_management_conn(Some(v4(2)), v4(1)),
        ManagementPlan::UseForUser
    );
    assert_eq!(
        connect_and_check_only_management_conn(Some(None), v4(1)),
        ManagementPlan::UseForUser
    );
    assert_eq!(connect_and_check_only_management_conn(None, v4(1)), ManagementPlan::Without);
    assert!(same_ip(None, None) && same_ip(v4(3), v4(3)));
    assert!(!same_ip(v4(3), Some(NodeIp::V6(3))) && !same_ip(None, v4(3)));
    assert!(management_follows_user(v4(1), v4(2)));
    assert!(!management_follows_user(v4(1), v4(1)));
    let resolved = vec![NodeIp::V4(1), NodeIp::V6(7)];
    assert!(!has_dns_changed(Some(&resolved), NodeIp::V6(7)));
    assert!(has_dns_changed(Some(&resolved), NodeIp::V4(7)));
    assert!(has_dns_changed(Some(&vec![]), NodeIp::V4(7)));
    assert!(!has_dns_changed(None, NodeIp::V4(7)));
    assert_eq!(
        failed_to_refresh_all("why".to_string()),
        RedisError::with_detail(
            ErrorKind::IoError,
            "Failed to refresh all connections",
            "why".to_string()
        )
    );
}
