use redis_cluster::aggregate::{
    aggregate, combine_and_sort_array_results, combine_array_results, logical_aggregate,
};
use redis_cluster::command::Cmd;
use redis_cluster::container::{ClusterNode, ConnectionsContainer, ConnectionsMap};
use redis_cluster::error::{ErrorKind, RedisError};
use redis_cluster::fanout::{
    aggregate_results, command_for_multi_slot_indices, fan_out_targets, merge_results,
};
use redis_cluster::routing::{
    AggregateOp, LogicalAggregateOp, MultipleNodeRoutingInfo, ResponsePolicy, Route, RoutingInfo,
    SlotAddr,
};
use redis_cluster::slot_map::{build_slot_map, Slot, SlotMap};
use redis_cluster::value::Value;

fn command(words: &[&str]) -> Cmd {
    let mut c = Cmd::new();
    for w in words {
        c.arg(w.as_bytes());
    }
    c
}

fn ints(values: &[i64]) -> Value {
    Value::Bulk(values.iter().map(|v| Value::Int(*v)).collect())
}

fn type_error(description: &str) -> RedisError {
    RedisError::new(ErrorKind::TypeError, description)
}

fn replies(values: Vec<Result<Value, RedisError>>) -> Vec<(String, Result<Value, RedisError>)> {
    values
        .into_iter()
        .enumerate()
        .map(|(i, v)| (format!("n{}:1", i), v))
        .collect()
}

fn failure(name: &str) -> RedisError {
    RedisError::with_detail(ErrorKind::ResponseError, "failed", name.to_string())
}

#[test]
fn dbsize_of_three_primaries_is_summed() {
    let routing = RoutingInfo::for_routable(&command(&["DBSIZE"])).unwrap();
    let (multi, policy) = match routing {
        RoutingInfo::MultiNode(pair) => pair,
        other => panic!("unexpected routing {:?}", other),
    };
    assert_eq!(multi, MultipleNodeRoutingInfo::AllMasters);
    let got = aggregate_results(
        replies(vec![Ok(Value::Int(10)), Ok(Value::Int(20)), Ok(Value::Int(30))]),
        &multi,
        policy,
    );
    assert_eq!(got, Ok(Value::Int(60)));
}

#[test]
fn integers_are_summed_or_their_least_is_taken() {
    let values = vec![Value::Int(5), Value::Int(-7), Value::Int(3)];
    assert_eq!(aggregate(&values, AggregateOp::Sum), Ok(Value::Int(1)));
    assert_eq!(aggregate(&values, AggregateOp::Min), Ok(Value::Int(-7)));
    assert_eq!(aggregate(&vec![], AggregateOp::Sum), Ok(Value::Int(0)));
    assert_eq!(aggregate(&vec![], AggregateOp::Min), Ok(Value::Int(i64::MAX)));
    assert_eq!(
        aggregate(&vec![Value::Int(1), Value::Nil], AggregateOp::Sum),
        Err(type_error("expected array of integers as response"))
    );
    assert_eq!(
        aggregate(&vec![Value::Data(vec![1]), Value::Int(1)], AggregateOp::Min),
        Err(type_error("expected array of integers as response"))
    );
    // a sum is taken as a whole: what is passed on the way does not matter
    assert_eq!(
        aggregate(
            &vec![Value::Int(i64::MAX), Value::Int(1), Value::Int(-2)],
            AggregateOp::Sum
        ),
        Ok(Value::Int(i64::MAX - 1))
    );
    assert_eq!(
        aggregate(&vec![Value::Int(i64::MAX), Value::Int(1)], AggregateOp::Sum),
        Err(type_error("sum of responses does not fit in 64 bits"))
    );
    assert_eq!(
        aggregate(&vec![Value::Int(i64::MIN), Value::Int(-1)], AggregateOp::Sum),
        Err(type_error("sum of responses does not fit in 64 bits"))
    );
    assert_eq!(
        aggregate(&vec![Value::Int(i64::MAX), Value::Int(1)], AggregateOp::Min),
        Ok(Value::Int(1))
    );
}

#[test]
fn arrays_of_integers_are_reduced_column_by_column() {
    let rows = vec![ints(&[1, 0, 1, 5]), ints(&[1, 1, 0, 0]), ints(&[2, 0, 0, -1])];
    assert_eq!(
        logical_aggregate(&rows, LogicalAggregateOp::And),
        Ok(ints(&[1, 0, 0, 0]))
    );
    assert_eq!(
        logical_aggregate(&rows, LogicalAggregateOp::Or),
        Ok(ints(&[1, 1, 1, 1]))
    );
    assert_eq!(
        logical_aggregate(&vec![ints(&[0, -3])], LogicalAggregateOp::Or),
        Ok(ints(&[0, 0]))
    );
    assert_eq!(logical_aggregate(&vec![], LogicalAggregateOp::And), Ok(ints(&[])));
    assert_eq!(
        logical_aggregate(&vec![ints(&[]), ints(&[])], LogicalAggregateOp::And),
        Ok(ints(&[]))
    );
    for bad in [
        vec![ints(&[1]), ints(&[1, 1])],
        vec![ints(&[1, 1]), ints(&[1])],
        vec![Value::Int(1)],
        vec![ints(&[1]), Value::Nil],
        vec![Value::Bulk(vec![Value::Nil])],
    ] {
        assert_eq!(
            logical_aggregate(&bad, LogicalAggregateOp::And),
            Err(type_error("expected array of integers as response"))
        );
    }
}

#[test]
fn arrays_are_concatenated() {
    assert_eq!(
        combine_array_results(&vec![ints(&[1, 2]), ints(&[]), ints(&[3])]),
        Ok(ints(&[1, 2, 3]))
    );
    assert_eq!(combine_array_results(&vec![]), Ok(ints(&[])));
    assert_eq!(
        combine_array_results(&vec![ints(&[1]), Value::Int(2)]),
        Err(type_error("expected array of values as response"))
    );
}

#[test]
fn parts_of_a_split_command_are_put_back_in_order() {
    let route = |s| Route::new(s, SlotAddr::Master);
    let routes = vec![(route(1), vec![0, 2]), (route(2), vec![3]), (route(3), vec![1])];
    assert_eq!(
        combine_and_sort_array_results(&vec![ints(&[10, 12]), ints(&[13]), ints(&[11])], &routes),
        Ok(ints(&[10, 11, 12, 13]))
    );
    assert_eq!(combine_and_sort_array_results(&vec![], &vec![]), Ok(ints(&[])));
    let mismatch = Err(type_error("responses do not match the request"));
    assert_eq!(
        combine_and_sort_array_results(&vec![ints(&[10, 12]), ints(&[13])], &routes),
        mismatch
    );
    assert_eq!(
        combine_and_sort_array_results(&vec![ints(&[10]), ints(&[13]), ints(&[11])], &routes),
        mismatch
    );
    assert_eq!(
        combine_and_sort_array_results(&vec![ints(&[10])], &vec![(route(1), vec![1])]),
        mismatch
    );
    assert_eq!(
        combine_and_sort_array_results(&vec![Value::Nil, ints(&[13]), ints(&[11])], &routes),
        Err(type_error("expected array of values as response"))
    );
    // a position that is given twice keeps what was put there last
    assert_eq!(
        combine_and_sort_array_results(
            &vec![ints(&[1, 2])],
            &vec![(route(1), vec![0, 0])]
        ),
        Ok(Value::Bulk(vec![Value::Int(2), Value::Nil]))
    );
}

#[test]
fn the_policy_decides_what_the_replies_come_to() {
    let all = MultipleNodeRoutingInfo::AllMasters;
    let mixed = || {
        replies(vec![
            Err(failure("first")),
            Ok(Value::Nil),
            Ok(Value::Int(2)),
            Err(failure("last")),
            Ok(Value::Int(4)),
        ])
    };
    assert_eq!(
        aggregate_results(mixed(), &all, Some(ResponsePolicy::OneSucceeded)),
        Ok(Value::Nil)
    );
    assert_eq!(
        aggregate_results(mixed(), &all, Some(ResponsePolicy::OneSucceededNonEmpty)),
        Ok(Value::Int(2))
    );
    for policy in [
        Some(ResponsePolicy::AllSucceeded),
        Some(ResponsePolicy::Aggregate(AggregateOp::Sum)),
        Some(ResponsePolicy::AggregateLogical(LogicalAggregateOp::And)),
        Some(ResponsePolicy::CombineArrays),
        Some(ResponsePolicy::Special),
        None,
    ] {
        assert_eq!(aggregate_results(mixed(), &all, policy), Err(failure("first")));
    }
    let failed = || replies(vec![Err(failure("first")), Ok(Value::Nil), Err(failure("last"))]);
    assert_eq!(
        aggregate_results(failed(), &all, Some(ResponsePolicy::OneSucceededNonEmpty)),
        Err(failure("last"))
    );
    assert_eq!(
        aggregate_results(
            replies(vec![Err(failure("first")), Ok(Value::Nil)]),
            &all,
            Some(ResponsePolicy::OneSucceededNonEmpty)
        ),
        Err(RedisError::new(ErrorKind::ResponseError, "no value found"))
    );
    assert_eq!(
        aggregate_results(
            replies(vec![Err(failure("first")), Err(failure("last"))]),
            &all,
            Some(ResponsePolicy::OneSucceeded)
        ),
        Err(failure("last"))
    );
    let good = || replies(vec![Ok(ints(&[1, 0])), Ok(ints(&[1, 1]))]);
    assert_eq!(
        aggregate_results(good(), &all, Some(ResponsePolicy::AllSucceeded)),
        Ok(ints(&[1, 1]))
    );
    assert_eq!(
        aggregate_results(
            good(),
            &all,
            Some(ResponsePolicy::AggregateLogical(LogicalAggregateOp::And))
        ),
        Ok(ints(&[1, 0]))
    );
    assert_eq!(
        aggregate_results(good(), &all, Some(ResponsePolicy::CombineArrays)),
        Ok(ints(&[1, 0, 1, 1]))
    );
    let routes = MultipleNodeRoutingInfo::MultiSlot(vec![
        (Route::new(1, SlotAddr::Master), vec![1, 3]),
        (Route::new(2, SlotAddr::Master), vec![0, 2]),
    ]);
    assert_eq!(
        aggregate_results(good(), &routes, Some(ResponsePolicy::CombineArrays)),
        Ok(ints(&[1, 1, 1, 0]))
    );
    let keyed = Value::Bulk(vec![
        Value::Bulk(vec![Value::Data(b"n0:1".to_vec()), ints(&[1, 0])]),
        Value::Bulk(vec![Value::Data(b"n1:1".to_vec()), ints(&[1, 1])]),
    ]);
    assert_eq!(
        aggregate_results(good(), &all, Some(ResponsePolicy::Special)),
        Ok(keyed.duplicate())
    );
    assert_eq!(aggregate_results(good(), &all, None), Ok(keyed.duplicate()));
    assert_eq!(
        merge_results(vec![
            ("n0:1".to_string(), ints(&[1, 0])),
            ("n1:1".to_string(), ints(&[1, 1]))
        ]),
        keyed
    );
}

#[test]
fn no_replies_at_all() {
    let all = MultipleNodeRoutingInfo::AllNodes;
    let nothing = Err(RedisError::new(
        ErrorKind::NoConnectionsAvailable,
        "No connections available",
    ));
    assert_eq!(
        aggregate_results(vec![], &all, Some(ResponsePolicy::AllSucceeded)),
        nothing
    );
    assert_eq!(
        aggregate_results(vec![], &all, Some(ResponsePolicy::OneSucceeded)),
        nothing
    );
    assert_eq!(
        aggregate_results(vec![], &all, Some(ResponsePolicy::OneSucceededNonEmpty)),
        nothing
    );
    assert_eq!(
        aggregate_results(vec![], &all, Some(ResponsePolicy::Aggregate(AggregateOp::Sum))),
        Ok(Value::Int(0))
    );
    assert_eq!(
        aggregate_results(vec![], &all, Some(ResponsePolicy::CombineArrays)),
        Ok(ints(&[]))
    );
    assert_eq!(aggregate_results(vec![], &all, None), Ok(ints(&[])));
}

#[test]
fn a_part_holds_the_name_and_the_arguments_of_its_positions() {
    let mget = command(&["MGET", "a", "b", "c", "d"]);
    assert_eq!(
        command_for_multi_slot_indices(&mget, &vec![0, 2]).get_packed_command(),
        command(&["MGET", "a", "c"]).get_packed_command()
    );
    assert_eq!(
        command_for_multi_slot_indices(&mget, &vec![3, 9, usize::MAX, 1]).get_packed_command(),
        command(&["MGET", "d", "b"]).get_packed_command()
    );
    assert_eq!(
        command_for_multi_slot_indices(&mget, &vec![]).get_packed_command(),
        command(&["MGET"]).get_packed_command()
    );
    assert_eq!(command_for_multi_slot_indices(&Cmd::new(), &vec![0]).len(), 0);
}

fn holder() -> ConnectionsContainer<u32> {
    let mut nodes = ConnectionsMap::new();
    nodes.insert("a:1".to_string(), ClusterNode::new(1u32, None, None));
    nodes.insert("r:1".to_string(), ClusterNode::new(9u32, None, None));
    nodes.insert("b:2".to_string(), ClusterNode::new(2u32, None, None));
    let mut slots = SlotMap::new();
    build_slot_map(
        &mut slots,
        vec![
            Slot::new(0, 5000, "a:1".to_string(), vec!["r:1".to_string()]),
            Slot::new(5001, 13000, "b:2".to_string(), vec![]),
            Slot::new(13001, 16383, "c:3".to_string(), vec![]),
        ],
        false,
    )
    .unwrap();
    ConnectionsContainer::new(slots, nodes, false, 0)
}

fn summary(targets: Vec<(Cmd, (String, &u32))>) -> Vec<(Vec<u8>, String, u32)> {
    targets
        .into_iter()
        .map(|(c, (addr, conn))| (c.get_packed_command(), addr, *conn))
        .collect()
}

#[test]
fn a_fan_out_goes_to_the_nodes_of_its_routing() {
    let holder = holder();
    let ping = command(&["FLUSHALL"]);
    let packed = ping.get_packed_command();
    assert_eq!(
        summary(
            fan_out_targets(&holder, &ping, &MultipleNodeRoutingInfo::AllNodes, None).unwrap()
        ),
        vec![
            (packed.clone(), "a:1".to_string(), 1),
            (packed.clone(), "r:1".to_string(), 9),
            (packed.clone(), "b:2".to_string(), 2)
        ]
    );
    // the primary c:3 is not connected
    assert_eq!(
        fan_out_targets(
            &holder,
            &ping,
            &MultipleNodeRoutingInfo::AllMasters,
            Some(ResponsePolicy::AllSucceeded)
        )
        .unwrap_err(),
        RedisError::new(
            ErrorKind::NoConnectionsAvailable,
            "No connection to a node of the request"
        )
    );
    assert_eq!(
        summary(
            fan_out_targets(
                &holder,
                &ping,
                &MultipleNodeRoutingInfo::AllMasters,
                Some(ResponsePolicy::OneSucceeded)
            )
            .unwrap()
        ),
        vec![
            (packed.clone(), "a:1".to_string(), 1),
            (packed.clone(), "b:2".to_string(), 2)
        ]
    );
    let mget = command(&["MGET", "b", "foo", "{b}2", "a"]);
    let routes = match RoutingInfo::for_routable(&mget) {
        Some(RoutingInfo::MultiNode((routes, _))) => routes,
        other => panic!("unexpected routing {:?}", other),
    };
    // b is in slot 3300, foo in 12182, a in 15495, which c:3 serves
    assert!(fan_out_targets(&holder, &mget, &routes, Some(ResponsePolicy::CombineArrays)).is_err());
    assert!(fan_out_targets(&holder, &mget, &routes, None).is_err());
    assert_eq!(
        summary(
            fan_out_targets(
                &holder,
                &mget,
                &routes,
                Some(ResponsePolicy::OneSucceededNonEmpty)
            )
            .unwrap()
        ),
        vec![
            (command(&["MGET", "b", "{b}2"]).get_packed_command(), "a:1".to_string(), 1),
            (command(&["MGET", "foo"]).get_packed_command(), "b:2".to_string(), 2)
        ]
    );
}
