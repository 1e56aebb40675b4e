use redis_cluster::command::{cmd, Cmd};
use redis_cluster::connection::RetryParams;
use redis_cluster::container::{ClusterNode, ConnectionsContainer, ConnectionsMap};
use redis_cluster::dispatch::{
    end_recovery, end_round, refresh_error_recipient, start_recovery, take_step, ConnectionState,
    ErrorRecipient, PollFlushAction, PollOutcome, Requeue,
};
use redis_cluster::error::{ErrorKind, RedisError};
use redis_cluster::request::{
    check_connection, get_random_connection, plan_command, CmdArg, CommandRouting,
    ConnectionCheck, Dispatch, Next, OperationTarget, PendingRequest, Redirect, Response,
};
use redis_cluster::routing::{
    MultipleNodeRoutingInfo, ResponsePolicy, Route, RoutingInfo, SingleNodeRoutingInfo, SlotAddr,
};
use redis_cluster::slot_map::{build_slot_map, Slot, SlotMap};
use redis_cluster::topology::calculate_topology;
use redis_cluster::value::Value;

fn command(words: &[&str]) -> Cmd {
    let mut c = Cmd::new();
    for w in words {
        c.arg(w.as_bytes());
    }
    c
}

fn request(c: Cmd) -> PendingRequest<u32> {
    let routing = RoutingInfo::for_routable(&c).unwrap();
    PendingRequest::new(CmdArg::Cmd {
        cmd: c,
        routing: CommandRouting::Route(routing),
    })
}

fn node(identifier: &str) -> OperationTarget {
    OperationTarget::Node {
        identifier: identifier.to_string(),
    }
}

fn params(number_of_retries: u32) -> RetryParams {
    RetryParams {
        number_of_retries,
        base_wait: 100,
        max_wait: 1000,
    }
}

fn container(nodes: &[(&str, u32)], slots: Vec<Slot>) -> ConnectionsContainer<u32> {
    let mut map = ConnectionsMap::new();
    for (addr, conn) in nodes {
        map.insert(addr.to_string(), ClusterNode::new(*conn, None, None));
    }
    let mut slot_map = SlotMap::new();
    if !slots.is_empty() {
        build_slot_map(&mut slot_map, slots, false).unwrap();
    }
    ConnectionsContainer::new(slot_map, map, false, 0)
}

#[test]
fn a_success_is_delivered() {
    let next = request(command(&["GET", "k"])).on_reply(
        &params(3),
        node("a:1"),
        Ok(Response::Single(Value::Int(1))),
    );
    assert!(matches!(next, Next::Done(Ok(Response::Single(Value::Int(1))))));
}

#[test]
fn moved_refreshes_the_slot_map_and_follows_the_redirect() {
    // the client knows one node, which says that the slot has moved
    let holder = container(
        &[("10.0.0.1:6379", 1)],
        vec![Slot::new(0, 16383, "10.0.0.1:6379".to_string(), vec![])],
    );
    let route = SingleNodeRoutingInfo::SpecificNode(Route::new(3999, SlotAddr::ReplicaOptional));
    match check_connection(&holder, None, &route) {
        ConnectionCheck::Found((addr, conn)) => {
            assert_eq!(addr, "10.0.0.1:6379");
            assert_eq!(*conn, 1);
        }
        other => panic!("unexpected target {:?}", other),
    }
    let next = request(command(&["GET", "k"])).on_reply(
        &params(3),
        node("10.0.0.1:6379"),
        Err(RedisError::from_server_line("MOVED 3999 10.0.0.2:6379")),
    );
    let (action, requeue) = take_step(PollFlushAction::Nothing, next);
    assert_eq!(action, PollFlushAction::RebuildSlots);
    let pending = match requeue {
        Requeue::InFlight(pending) => pending,
        other => panic!("unexpected step {:?}", other),
    };
    assert_eq!(pending.retry, 1);
    assert_eq!(
        pending.info.redirect,
        Some(Redirect::Moved("10.0.0.2:6379".to_string()))
    );
    assert!(!pending.is_asking());

    // the refresh learns the new slot map
    let view = Value::Bulk(vec![Value::Bulk(vec![
        Value::Int(0),
        Value::Int(16383),
        Value::Bulk(vec![Value::Data(b"10.0.0.2".to_vec()), Value::Int(6379)]),
    ])]);
    let new_slots = calculate_topology(vec![view], None, None, false, 1).unwrap();
    assert_eq!(
        new_slots.slot_addr_for_route(&Route::new(3999, SlotAddr::Master)),
        Some("10.0.0.2:6379")
    );

    // before the new node is connected the redirect names only its address
    match check_connection(&holder, pending.info.redirect, &route) {
        ConnectionCheck::OnlyAddress(addr) => assert_eq!(addr, "10.0.0.2:6379"),
        other => panic!("unexpected target {:?}", other),
    }
    // afterwards the request goes to the new node and its value is returned
    let mut nodes = ConnectionsMap::new();
    nodes.insert("10.0.0.2:6379".to_string(), ClusterNode::new(2u32, None, None));
    let holder = ConnectionsContainer::new(new_slots, nodes, false, 0);
    match check_connection(
        &holder,
        Some(Redirect::Moved("10.0.0.2:6379".to_string())),
        &route,
    ) {
        ConnectionCheck::Found((addr, conn)) => {
            assert_eq!(addr, "10.0.0.2:6379");
            assert_eq!(*conn, 2);
        }
        other => panic!("unexpected target {:?}", other),
    }
    let mut again = request(command(&["GET", "k"]));
    again.retry = 1;
    let next = again.on_reply(
        &params(3),
        node("10.0.0.2:6379"),
        Ok(Response::Single(Value::Data(b"v".to_vec()))),
    );
    assert!(matches!(next, Next::Done(Ok(Response::Single(Value::Data(_))))));
}

#[test]
fn ask_is_followed_once_without_a_refresh() {
    let next = request(command(&["SET", "k", "v"])).on_reply(
        &params(3),
        node("a:1"),
        Err(RedisError::from_server_line("ASK 7000 b:2")),
    );
    let (action, requeue) = take_step(PollFlushAction::Nothing, next);
    assert_eq!(action, PollFlushAction::Nothing);
    let pending = match requeue {
        Requeue::InFlight(pending) => pending,
        other => panic!("unexpected step {:?}", other),
    };
    assert_eq!(pending.retry, 1);
    assert_eq!(pending.info.redirect, Some(Redirect::Ask("b:2".to_string())));
    assert!(pending.is_asking());
    let holder = container(
        &[("a:1", 1), ("b:2", 2)],
        vec![Slot::new(0, 16383, "a:1".to_string(), vec![])],
    );
    match check_connection(
        &holder,
        pending.info.redirect,
        &SingleNodeRoutingInfo::SpecificNode(Route::new(7000, SlotAddr::Master)),
    ) {
        ConnectionCheck::Found((addr, conn)) => {
            assert_eq!(addr, "b:2");
            assert_eq!(*conn, 2);
        }
        other => panic!("unexpected target {:?}", other),
    }
    assert_eq!(cmd("ASKING").get_packed_command(), b"*1\r\n$6\r\nASKING\r\n".to_vec());
}

#[test]
fn try_again_and_cluster_down_are_waited_out() {
    for line in ["TRYAGAIN later", "CLUSTERDOWN The cluster is down"] {
        let mut pending = request(command(&["GET", "k"]));
        pending.retry = 2;
        match pending.on_reply(&params(5), node("a:1"), Err(RedisError::from_server_line(line))) {
            Next::Sleep { request, wait } => {
                assert_eq!(request.retry, 3);
                // retry 3 waits between half of 100 * 2^2 and all of it
                assert!((200..=400).contains(&wait));
            }
            other => panic!("unexpected step {:?}", other),
        }
    }
}

#[test]
fn an_io_error_reconnects_the_node() {
    let next = request(command(&["GET", "k"])).on_reply(
        &params(3),
        node("a:1"),
        Err(RedisError::new(ErrorKind::IoError, "broken pipe")),
    );
    let (action, requeue) = take_step(PollFlushAction::Nothing, next);
    assert_eq!(action, PollFlushAction::Reconnect(vec!["a:1".to_string()]));
    assert!(matches!(requeue, Requeue::Pending(PendingRequest { retry: 1, .. })));
}

#[test]
fn other_errors_are_retried_only_if_their_kind_allows() {
    let next = request(command(&["GET", "k"])).on_reply(
        &params(3),
        node("a:1"),
        Err(RedisError::from_server_line("LOADING Redis is loading")),
    );
    assert!(matches!(next, Next::Retry { request: PendingRequest { retry: 1, .. } }));
    for line in ["ERR unknown command", "CROSSSLOT Keys in request", "NOAUTH needed", "NOSCRIPT x"] {
        let err = RedisError::from_server_line(line);
        let next = request(command(&["GET", "k"])).on_reply(
            &params(3),
            node("a:1"),
            Err(err.duplicate()),
        );
        match next {
            Next::Done(Err(e)) => assert_eq!(e, err),
            other => panic!("unexpected step {:?}", other),
        }
    }
    for kind in [
        ErrorKind::AuthenticationFailed,
        ErrorKind::InvalidClientConfig,
        ErrorKind::ClientError,
        ErrorKind::CrossSlot,
    ] {
        let next = request(command(&["GET", "k"])).on_reply(
            &params(3),
            node("a:1"),
            Err(RedisError::new(kind, "x")),
        );
        assert!(matches!(next, Next::Done(Err(_))));
    }
}

#[test]
fn the_error_of_a_fan_out_is_delivered() {
    let next = request(command(&["GET", "k"])).on_reply(
        &params(3),
        OperationTarget::FanOut,
        Err(RedisError::from_server_line("MOVED 1 b:2")),
    );
    assert!(matches!(next, Next::Done(Err(_))));
}

#[test]
fn a_request_is_sent_at_most_once_more_than_the_retries() {
    for retries in [0u32, 1, 4] {
        for line in ["MOVED 1 a:1", "ASK 1 a:1", "TRYAGAIN", "LOADING"] {
            let mut pending = request(command(&["GET", "k"]));
            let mut sent = 0u32;
            loop {
                sent += 1;
                let next = pending.on_reply(
                    &RetryParams { number_of_retries: retries, base_wait: 0, max_wait: 0 },
                    node("a:1"),
                    Err(RedisError::from_server_line(line)),
                );
                pending = match next {
                    Next::Done(Err(e)) => {
                        // the last error is the one that is surfaced
                        assert_eq!(e, RedisError::from_server_line(line));
                        break;
                    }
                    Next::Done(Ok(_)) => panic!("no success was replied"),
                    Next::Retry { request } => request,
                    Next::Sleep { request, .. } => request,
                    Next::Reconnect { request, .. } => request,
                    Next::RefreshSlots { request } => request,
                };
                assert_eq!(pending.retry, sent);
            }
            assert_eq!(sent, retries + 1);
        }
    }
}

#[test]
fn a_redirect_without_an_address_clears_the_redirect() {
    let next = request(command(&["GET", "k"])).on_reply(
        &params(3),
        node("a:1"),
        Err(RedisError::from_server_line("MOVED")),
    );
    match next {
        Next::RefreshSlots { request } => assert_eq!(request.info.redirect, None),
        other => panic!("unexpected step {:?}", other),
    }
}

#[test]
fn the_target_of_a_request() {
    let holder = container(
        &[("a:1", 1), ("b:2", 2)],
        vec![
            Slot::new(0, 8000, "a:1".to_string(), vec![]),
            Slot::new(8001, 16383, "c:3".to_string(), vec![]),
        ],
    );
    let at = |slot: u16| SingleNodeRoutingInfo::SpecificNode(Route::new(slot, SlotAddr::Master));
    assert!(matches!(
        check_connection(&holder, None, &at(5)),
        ConnectionCheck::Found((_, 1))
    ));
    // the node of the slot is not connected
    assert!(matches!(
        check_connection(&holder, None, &at(9000)),
        ConnectionCheck::Nothing
    ));
    assert!(matches!(
        check_connection(&holder, None, &at(20000)),
        ConnectionCheck::Nothing
    ));
    assert!(matches!(
        check_connection(&holder, None, &SingleNodeRoutingInfo::Random),
        ConnectionCheck::Nothing
    ));
    // the same question gets the same answer
    for _ in 0..10 {
        assert!(matches!(
            check_connection(&holder, None, &at(5)),
            ConnectionCheck::Found((_, 1))
        ));
    }
    let (addr, conn) = get_random_connection(&holder).unwrap();
    assert!((addr == "a:1" && *conn == 1) || (addr == "b:2" && *conn == 2));
    let empty = container(&[], vec![]);
    assert_eq!(
        get_random_connection(&empty).unwrap_err(),
        RedisError::new(ErrorKind::NoConnectionsAvailable, "No connections available")
    );
}

#[test]
fn how_a_command_is_sent() {
    let redirect = Some(Redirect::Ask("b:2".to_string()));
    let multi: CommandRouting<u32> = CommandRouting::Route(RoutingInfo::MultiNode((
        MultipleNodeRoutingInfo::AllMasters,
        Some(ResponsePolicy::AllSucceeded),
    )));
    assert!(matches!(
        plan_command(&redirect, &multi),
        Dispatch::Single(SingleNodeRoutingInfo::Random)
    ));
    assert!(matches!(
        plan_command(&None, &multi),
        Dispatch::FanOut(MultipleNodeRoutingInfo::AllMasters, Some(ResponsePolicy::AllSucceeded))
    ));
    let direct = CommandRouting::Connection { identifier: "a:1".to_string(), conn: 7u32 };
    assert!(matches!(plan_command(&None, &direct), Dispatch::Direct("a:1", 7)));
    let single: CommandRouting<u32> =
        CommandRouting::Route(RoutingInfo::SingleNode(SingleNodeRoutingInfo::Random));
    assert!(matches!(
        plan_command(&None, &single),
        Dispatch::Single(SingleNodeRoutingInfo::Random)
    ));
    assert_eq!(
        SingleNodeRoutingInfo::from_route(Some(Route::new(1, SlotAddr::Master))),
        SingleNodeRoutingInfo::SpecificNode(Route::new(1, SlotAddr::Master))
    );
    assert_eq!(SingleNodeRoutingInfo::from_route(None), SingleNodeRoutingInfo::Random);
}

#[test]
fn actions_of_the_dispatcher_add_up() {
    let reconnect = |a: &[&str]| PollFlushAction::Reconnect(a.iter().map(|s| s.to_string()).collect());
    assert_eq!(
        PollFlushAction::Nothing.change_state(reconnect(&["a"])),
        reconnect(&["a"])
    );
    assert_eq!(
        reconnect(&["a"]).change_state(reconnect(&["b", "c"])),
        reconnect(&["a", "b", "c"])
    );
    assert_eq!(
        reconnect(&["a"]).change_state(PollFlushAction::Nothing),
        reconnect(&["a"])
    );
    assert_eq!(
        reconnect(&["a"]).change_state(PollFlushAction::RebuildSlots),
        PollFlushAction::RebuildSlots
    );
    assert_eq!(
        PollFlushAction::RebuildSlots.change_state(reconnect(&["a"])),
        PollFlushAction::RebuildSlots
    );
    assert_eq!(end_round(PollFlushAction::Nothing, false), PollOutcome::Pending);
    assert_eq!(
        end_round(PollFlushAction::Nothing, true),
        PollOutcome::Ready(PollFlushAction::Nothing)
    );
    assert_eq!(
        end_round(PollFlushAction::RebuildSlots, false),
        PollOutcome::Ready(PollFlushAction::RebuildSlots)
    );
    assert_eq!(start_recovery(PollFlushAction::RebuildSlots), ConnectionState::RecoverSlots);
    assert_eq!(
        start_recovery(reconnect(&["a"])),
        ConnectionState::Reconnect(vec!["a".to_string()])
    );
    assert_eq!(start_recovery(PollFlushAction::Nothing), ConnectionState::PollComplete);
    let failure = RedisError::new(ErrorKind::IoError, "x");
    assert_eq!(
        end_recovery(ConnectionState::RecoverSlots, Err(failure.duplicate())),
        (ConnectionState::RecoverSlots, Some(failure.duplicate()))
    );
    assert_eq!(
        end_recovery(ConnectionState::RecoverSlots, Ok(())),
        (ConnectionState::PollComplete, None)
    );
    assert_eq!(
        end_recovery(ConnectionState::Reconnect(vec![]), Err(failure)),
        (ConnectionState::PollComplete, None)
    );
    assert_eq!(refresh_error_recipient(true, 3), ErrorRecipient::InFlight);
    assert_eq!(refresh_error_recipient(false, 3), ErrorRecipient::LastPending);
    assert_eq!(refresh_error_recipient(false, 0), ErrorRecipient::Nobody);
}
