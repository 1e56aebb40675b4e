use redis_cluster::command::{cmd, Cmd, Pipeline};
use redis_cluster::routing::{
    route_for_command, AggregateOp, LogicalAggregateOp, MultipleNodeRoutingInfo, ResponsePolicy,
    Route, RoutingInfo, SingleNodeRoutingInfo, SlotAddr,
};
use redis_cluster::slot::get_slot;

fn command(words: &[&str]) -> Cmd {
    let mut c = Cmd::new();
    for w in words {
        c.arg(w.as_bytes());
    }
    c
}

#[test]
fn slots_of_known_keys() {
    assert_eq!(get_slot(b"foo"), 12182);
    assert_eq!(get_slot(b"baz"), 4813);
    assert_eq!(get_slot(b"a"), 15495);
    assert_eq!(get_slot(b"b"), 3300);
    assert_eq!(get_slot(b"key"), 12539);
    assert_eq!(get_slot(b"123456789"), 0x31c3 % 16384);
    assert_eq!(get_slot(b""), 0);
}

#[test]
fn hash_tag_decides_the_slot() {
    assert_eq!(get_slot(b"{foo}.bar"), 12182);
    assert_eq!(get_slot(b"x{foo}y{baz}"), 12182);
    assert_eq!(get_slot(b"{foo}{baz}"), 12182);
    // an empty tag, or a tag that is not closed, is no tag
    assert_eq!(get_slot(b"{}foo"), get_slot(b"{}foo"));
    assert_ne!(get_slot(b"{}foo"), get_slot(b"foo"));
    assert_ne!(get_slot(b"foo{"), get_slot(b"foo"));
    assert_ne!(get_slot(b"{foo"), get_slot(b"foo"));
    // the first closing brace after the first opening brace ends the tag
    assert_eq!(get_slot(b"}{foo}"), 12182);
    assert_eq!(get_slot(b"{{foo}"), get_slot(b"{foo"));
}

#[test]
fn a_read_goes_to_a_replica_and_a_write_to_the_primary() {
    assert_eq!(
        route_for_command(&command(&["GET", "foo"])),
        Some(Route::new(12182, SlotAddr::ReplicaOptional))
    );
    assert_eq!(
        route_for_command(&command(&["SET", "foo", "bar"])),
        Some(Route::new(12182, SlotAddr::Master))
    );
    assert_eq!(
        route_for_command(&command(&["get", "foo"])),
        Some(Route::new(12182, SlotAddr::ReplicaOptional))
    );
    assert_eq!(route_for_command(&cmd("FLUSHALL")), None);
}

#[test]
fn the_command_table_routes_by_name() {
    assert_eq!(
        RoutingInfo::for_routable(&cmd("PING")),
        Some(RoutingInfo::SingleNode(SingleNodeRoutingInfo::Random))
    );
    assert_eq!(
        RoutingInfo::for_routable(&command(&["SCRIPT", "LOAD", "return 1"])),
        Some(RoutingInfo::MultiNode((
            MultipleNodeRoutingInfo::AllMasters,
            Some(ResponsePolicy::AllSucceeded)
        )))
    );
    assert_eq!(
        RoutingInfo::for_routable(&cmd("DBSIZE")),
        Some(RoutingInfo::MultiNode((
            MultipleNodeRoutingInfo::AllMasters,
            Some(ResponsePolicy::Aggregate(AggregateOp::Sum))
        )))
    );
    assert_eq!(
        RoutingInfo::for_routable(&command(&["script", "exists", "abc"])),
        Some(RoutingInfo::MultiNode((
            MultipleNodeRoutingInfo::AllMasters,
            Some(ResponsePolicy::AggregateLogical(LogicalAggregateOp::And))
        )))
    );
    assert_eq!(
        RoutingInfo::for_routable(&command(&["CONFIG", "SET", "a", "b"])),
        Some(RoutingInfo::MultiNode((
            MultipleNodeRoutingInfo::AllNodes,
            Some(ResponsePolicy::AllSucceeded)
        )))
    );
    assert_eq!(
        RoutingInfo::for_routable(&command(&["WAIT", "1", "0"])),
        Some(RoutingInfo::MultiNode((
            MultipleNodeRoutingInfo::AllMasters,
            Some(ResponsePolicy::Aggregate(AggregateOp::Min))
        )))
    );
    assert_eq!(
        RoutingInfo::for_routable(&cmd("INFO")),
        Some(RoutingInfo::MultiNode((
            MultipleNodeRoutingInfo::AllMasters,
            Some(ResponsePolicy::Special)
        )))
    );
    assert_eq!(RoutingInfo::for_routable(&command(&["SCAN", "0"])), None);
    assert_eq!(RoutingInfo::for_routable(&command(&["BITOP", "AND", "x"])), None);
    assert_eq!(RoutingInfo::for_routable(&Cmd::new()), None);
    // a command that is not in the table is routed by its first argument
    assert_eq!(
        RoutingInfo::for_routable(&command(&["LPUSH", "foo", "1"])),
        Some(RoutingInfo::SingleNode(SingleNodeRoutingInfo::SpecificNode(
            Route::new(12182, SlotAddr::Master)
        )))
    );
    assert_eq!(
        RoutingInfo::for_routable(&cmd("LASTSAVE")),
        Some(RoutingInfo::SingleNode(SingleNodeRoutingInfo::Random))
    );
}

#[test]
fn scripts_and_streams_find_their_key() {
    assert_eq!(
        RoutingInfo::for_routable(&cmd("EVAL")),
        Some(RoutingInfo::SingleNode(SingleNodeRoutingInfo::Random))
    );
    assert_eq!(
        RoutingInfo::for_routable(&command(&["EVAL", "return 1", "0"])),
        Some(RoutingInfo::SingleNode(SingleNodeRoutingInfo::Random))
    );
    assert_eq!(
        RoutingInfo::for_routable(&command(&["EVAL", "return 1", "1", "foo"])),
        Some(RoutingInfo::SingleNode(SingleNodeRoutingInfo::SpecificNode(
            Route::new(12182, SlotAddr::Master)
        )))
    );
    assert_eq!(
        RoutingInfo::for_routable(&command(&["EVALSHA", "abc", "+2", "foo", "bar"])),
        Some(RoutingInfo::SingleNode(SingleNodeRoutingInfo::SpecificNode(
            Route::new(12182, SlotAddr::Master)
        )))
    );
    assert_eq!(RoutingInfo::for_routable(&command(&["EVAL", "return 1", "x"])), None);
    assert_eq!(RoutingInfo::for_routable(&command(&["EVAL", "return 1", "1"])), None);
    assert_eq!(
        RoutingInfo::for_routable(&command(&["EVAL", "return 1", "18446744073709551616", "foo"])),
        None
    );
    assert_eq!(
        RoutingInfo::for_routable(&command(&["XREAD", "COUNT", "2", "streams", "foo", "0"])),
        Some(RoutingInfo::SingleNode(SingleNodeRoutingInfo::SpecificNode(
            Route::new(12182, SlotAddr::ReplicaOptional)
        )))
    );
    assert_eq!(RoutingInfo::for_routable(&command(&["XREAD", "COUNT", "2"])), None);
    assert_eq!(RoutingInfo::for_routable(&command(&["XREAD", "STREAMS"])), None);
    assert_eq!(
        RoutingInfo::for_routable(&command(&["XGROUP", "CREATE", "foo", "g", "$"])),
        Some(RoutingInfo::SingleNode(SingleNodeRoutingInfo::SpecificNode(
            Route::new(12182, SlotAddr::Master)
        )))
    );
    assert_eq!(RoutingInfo::for_routable(&command(&["XINFO", "STREAM"])), None);
}

#[test]
fn multi_key_commands_are_split_by_slot() {
    assert_eq!(
        RoutingInfo::for_routable(&command(&["MGET", "foo", "baz", "{foo}1", "b"])),
        Some(RoutingInfo::MultiNode((
            MultipleNodeRoutingInfo::MultiSlot(vec![
                (Route::new(12182, SlotAddr::ReplicaOptional), vec![0, 2]),
                (Route::new(4813, SlotAddr::ReplicaOptional), vec![1]),
                (Route::new(3300, SlotAddr::ReplicaOptional), vec![3]),
            ]),
            Some(ResponsePolicy::CombineArrays)
        )))
    );
    assert_eq!(
        RoutingInfo::for_routable(&command(&["MSET", "foo", "1", "baz", "2", "{foo}x", "3"])),
        Some(RoutingInfo::MultiNode((
            MultipleNodeRoutingInfo::MultiSlot(vec![
                (Route::new(12182, SlotAddr::Master), vec![0, 1, 4, 5]),
                (Route::new(4813, SlotAddr::Master), vec![2, 3]),
            ]),
            Some(ResponsePolicy::AllSucceeded)
        )))
    );
    // keys of one slot make a single-node command
    assert_eq!(
        RoutingInfo::for_routable(&command(&["DEL", "foo", "{foo}2"])),
        Some(RoutingInfo::SingleNode(SingleNodeRoutingInfo::SpecificNode(
            Route::new(12182, SlotAddr::Master)
        )))
    );
    // a key without its value
    assert_eq!(RoutingInfo::for_routable(&command(&["MSET", "foo", "1", "baz"])), None);
    // no keys at all
    assert_eq!(
        RoutingInfo::for_routable(&cmd("MGET")),
        Some(RoutingInfo::MultiNode((
            MultipleNodeRoutingInfo::MultiSlot(vec![]),
            Some(ResponsePolicy::CombineArrays)
        )))
    );
}

#[test]
fn a_command_is_packed_for_the_wire() {
    assert_eq!(
        command(&["SET", "foo", "0123456789"]).get_packed_command(),
        b"*3\r\n$3\r\nSET\r\n$3\r\nfoo\r\n$10\r\n0123456789\r\n".to_vec()
    );
    assert_eq!(cmd("ASKING").get_packed_command(), b"*1\r\n$6\r\nASKING\r\n".to_vec());
    assert_eq!(Cmd::new().get_packed_command(), b"*0\r\n".to_vec());
}

#[test]
fn the_name_of_a_command_may_take_two_words() {
    assert_eq!(command(&["get", "k"]).command(), Some(b"GET".to_vec()));
    assert_eq!(command(&["config", "get", "x"]).command(), Some(b"CONFIG GET".to_vec()));
    assert_eq!(cmd("config").command(), Some(b"CONFIG".to_vec()));
    assert_eq!(Cmd::new().command(), None);
    assert_eq!(command(&["a", "Streams", "STREAMS"]).position(b"streams"), Some(1));
    assert_eq!(command(&["a", "b"]).position(b"c"), None);
    let mut pipeline = Pipeline::new();
    pipeline.get("k").set("k", "v");
    assert_eq!(pipeline.len(), 2);
    assert_eq!(pipeline.command_at(1).len(), 3);
    assert_eq!(pipeline.command_at(0).arg_idx(1), Some(&b"k"[..]));
    assert_eq!(pipeline.command_at(0).arg_idx(2), None);
}
